use vstd::prelude::*;
use crate::point::Point;
use rand::Rng;

verus! {

/// Columns on which food may lie: 0 to 39.
pub const FOOD_COLUMNS: u64 = 40;

/// Rows on which food may lie: 1 to 39.
pub const FOOD_ROWS: u64 = 39;

/// The number of cells on which food may lie.
pub const FOOD_CELLS: u64 = 1560;

/// The cells on which food may lie.
pub open spec fn in_food_area(p: Point) -> bool {
    0 <= p.x < FOOD_COLUMNS && 1 <= p.y <= FOOD_ROWS
}

/// The food cells numbered row by row, from 0.
pub open spec fn cell_index(p: Point) -> int {
    (p.y - 1) * FOOD_COLUMNS + p.x
}

/// The food cell with number `i`.
pub open spec fn cell_at(i: int) -> Point {
    Point { x: (i % FOOD_COLUMNS as int) as i16, y: (i / FOOD_COLUMNS as int + 1) as i16 }
}

/// Where an apple eaten at `old` goes for the number `draw`, drawn below
/// `FOOD_CELLS - 1`: the `draw`-th food cell when the cell at `old` is
/// skipped.
pub open spec fn relocation(old: Point, draw: u64) -> Point {
    let k = draw as int;
    if in_food_area(old) && k >= cell_index(old) {
        cell_at(k + 1)
    } else {
        cell_at(k)
    }
}

proof fn lemma_cell_at(i: int)
    requires
        0 <= i < FOOD_CELLS,
    ensures
        in_food_area(cell_at(i)),
        cell_index(cell_at(i)) == i,
{
    let c = FOOD_COLUMNS as int;
    assert(0 <= i % c < c) by (nonlinear_arith)
        requires c == 40;
    assert(0 <= i / c < 39) by (nonlinear_arith)
        requires c == 40, 0 <= i < 1560;
    assert(i == (i / c) * c + i % c) by (nonlinear_arith)
        requires c == 40;
}

/// A relocated apple lies in the food area, and not where it was eaten.
pub proof fn lemma_relocation(old: Point, draw: u64)
    requires
        draw < FOOD_CELLS - 1,
    ensures
        in_food_area(relocation(old, draw)),
        relocation(old, draw) != old,
{
    let k = draw as int;
    if in_food_area(old) && k >= cell_index(old) {
        lemma_cell_at(k + 1);
    } else {
        lemma_cell_at(k);
    }
}

/// Relies on rand's `Rng::gen_range` on `thread_rng()`: a number in `0..n`
/// (it panics on an empty range, hence `n > 0`).
#[verifier::external_body]
pub(crate) fn random_below(n: u64) -> (r: u64)
    requires
        n > 0,
    ensures
        r < n,
{
    rand::thread_rng().gen_range(0..n)
}

/// The food cell that comes of `draw`, drawn below `FOOD_CELLS`.
pub fn food_cell(draw: u64) -> (r: Point)
    requires
        draw < FOOD_CELLS,
    ensures
        r == cell_at(draw as int),
        in_food_area(r),
{
    proof {
        lemma_cell_at(draw as int);
    }
    Point { x: (draw % FOOD_COLUMNS) as i16, y: (draw / FOOD_COLUMNS + 1) as i16 }
}

/// The new place of an apple eaten at `old`, for a number drawn below
/// `FOOD_CELLS - 1`.
pub fn relocate_apple(old: Point, draw: u64) -> (r: Point)
    requires
        draw < FOOD_CELLS - 1,
    ensures
        r == relocation(old, draw),
        in_food_area(r),
        r != old,
{
    proof {
        lemma_relocation(old, draw);
    }
    let in_area = 0 <= old.x && old.x < FOOD_COLUMNS as i16 && 1 <= old.y && old.y <= FOOD_ROWS as i16;
    if in_area {
        let idx = (old.y as u64 - 1) * FOOD_COLUMNS + old.x as u64;
        if draw >= idx {
            return food_cell(draw + 1);
        }
    }
    food_cell(draw)
}

/// A fresh apple on a random food cell.
pub fn reset_apple() -> (r: Point)
    ensures
        in_food_area(r),
{
    food_cell(random_below(FOOD_CELLS))
}

} // verus!
