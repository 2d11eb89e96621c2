use vstd::prelude::*;
use vstd::string::StrSliceExecFns;
use crate::point::{Direction, Point, in_bounds, on_screen};
use crate::food::{in_food_area, random_below};
use crate::game::{GameState, GameModel, wf, SPEED_MULT_MAX};

verus! {

/// The version shown in the status bar.
pub const GAME_VERSION: &'static str = "1.3";

/// Width of the status bar in terminal columns: two per grid column.
pub const BAR_WIDTH: usize = 80;

/// The palette that frames are painted with.
#[derive(Clone, Copy, PartialEq, Eq, Structural, Debug)]
pub enum Color {
    Black,
    White,
    Red,
    Yellow,
    Green,
    DarkGreen,
    DarkGrey,
}

/// Text to write at a terminal position, with its colours.
pub struct Cell {
    pub col: u16,
    pub row: u16,
    pub text: Vec<char>,
    pub fg: Color,
    pub bg: Color,
}

pub open spec fn cell_is(c: Cell, col: int, row: int, text: Seq<char>, fg: Color, bg: Color) -> bool {
    c.col == col && c.row == row && c.text@ == text && c.fg == fg && c.bg == bg
}

/// The character of a decimal digit.
pub open spec fn digit_char(d: int) -> char {
    if d == 0 { '0' }
    else if d == 1 { '1' }
    else if d == 2 { '2' }
    else if d == 3 { '3' }
    else if d == 4 { '4' }
    else if d == 5 { '5' }
    else if d == 6 { '6' }
    else if d == 7 { '7' }
    else if d == 8 { '8' }
    else { '9' }
}

/// The decimal digits of `n`, most significant first.
pub open spec fn decimal(n: nat) -> Seq<char>
    decreases n,
{
    if n < 10 {
        seq![digit_char(n as int)]
    } else {
        decimal(n / 10).push(digit_char((n % 10) as int))
    }
}

/// The status bar text: score, speed shown as `21 - multiplier`, version,
/// and a mark while paused.
pub open spec fn status_line(points: nat, speed_mult: int, paused: bool) -> Seq<char> {
    "Points: "@ + decimal(points) + "  Game Speed: "@ + decimal((SPEED_MULT_MAX + 1 - speed_mult) as nat)
        + "  Game Version: "@ + GAME_VERSION@ + if paused { " (PAUSED)"@ } else { Seq::empty() }
}

/// The colour of the status bar: red while a forgiven collision is shown.
pub open spec fn bar_color(warning: bool) -> Color {
    if warning { Color::Red } else { Color::DarkGreen }
}

/// The two characters of the head, by direction and animation frame.
pub open spec fn head_glyph(d: Direction, tempo: bool) -> Seq<char> {
    match d {
        Direction::Up => if tempo { seq!['\\', '/'] } else { seq!['|', '|'] },
        Direction::Down => if tempo { seq!['/', '\\'] } else { seq!['|', '|'] },
        Direction::Left => if tempo { seq!['>', '8'] } else { seq!['=', '8'] },
        Direction::Right => if tempo { seq!['8', '<'] } else { seq!['8', '='] },
        Direction::Still => seq![' ', ' '],
    }
}

/// The leaf with number `k` (0 to 3).
pub open spec fn leaf_of(k: int) -> Seq<char> {
    if k == 0 {
        seq!['o', '\\']
    } else if k == 1 {
        seq![' ', '/', 'o']
    } else if k == 2 {
        seq![' ', '|', 'D']
    } else {
        seq![' ', '|', '>']
    }
}

/// `c` paints one of the leaves, green on black, above the apple at `p`.
pub open spec fn is_leaf_cell(c: Cell, p: Point) -> bool {
    exists|k: int| 0 <= k < 4 && cell_is(c, 2 * p.x, p.y - 1, leaf_of(k), Color::Green, Color::Black)
}

/// The terminal position of a text position; each grid column takes two
/// terminal columns, so callers pass `2 * x`.
pub fn cmd_goto(x: i16, y: i16) -> (r: (u16, u16))
    requires
        x >= 0,
        y >= 0,
    ensures
        r.0 == x,
        r.1 == y,
{
    (x as u16, y as u16)
}

fn push_str(out: &mut Vec<char>, s: &str)
    ensures
        final(out)@ == old(out)@ + s@,
{
    let n = s.unicode_len();
    let mut i: usize = 0;
    while i < n
        invariant
            i <= n,
            n == s@.len(),
            out@ == old(out)@ + s@.subrange(0, i as int),
        decreases n - i,
    {
        out.push(s.get_char(i));
        i += 1;
        assert(out@ =~= old(out)@ + s@.subrange(0, i as int));
    }
    assert(s@.subrange(0, n as int) =~= s@);
}

fn digit(d: u64) -> (c: char)
    requires
        d < 10,
    ensures
        c == digit_char(d as int),
{
    if d == 0 { '0' }
    else if d == 1 { '1' }
    else if d == 2 { '2' }
    else if d == 3 { '3' }
    else if d == 4 { '4' }
    else if d == 5 { '5' }
    else if d == 6 { '6' }
    else if d == 7 { '7' }
    else if d == 8 { '8' }
    else { '9' }
}

/// Appends the decimal digits of `n`.
pub fn push_decimal(out: &mut Vec<char>, n: u64)
    ensures
        final(out)@ == old(out)@ + decimal(n as nat),
    decreases n,
{
    if n >= 10 {
        push_decimal(out, n / 10);
    }
    out.push(digit(n % 10));
    assert(out@ =~= old(out)@ + decimal(n as nat));
}

/// The status bar text for a score, a speed multiplier and the pause flag.
pub fn status_text(points: u64, speed_mult: u64, paused: bool) -> (r: Vec<char>)
    requires
        1 <= speed_mult <= SPEED_MULT_MAX,
    ensures
        r@ == status_line(points as nat, speed_mult as int, paused),
{
    let mut r: Vec<char> = Vec::new();
    push_str(&mut r, "Points: ");
    push_decimal(&mut r, points);
    push_str(&mut r, "  Game Speed: ");
    push_decimal(&mut r, SPEED_MULT_MAX + 1 - speed_mult);
    push_str(&mut r, "  Game Version: ");
    push_str(&mut r, GAME_VERSION);
    if paused {
        push_str(&mut r, " (PAUSED)");
    }
    assert(r@ =~= status_line(points as nat, speed_mult as int, paused));
    r
}

/// The head's two characters for a direction and an animation frame.
pub fn head_text(d: Direction, tempo: bool) -> (r: Vec<char>)
    ensures
        r@ == head_glyph(d, tempo),
{
    let (a, b) = match d {
        Direction::Up => if tempo { ('\\', '/') } else { ('|', '|') },
        Direction::Down => if tempo { ('/', '\\') } else { ('|', '|') },
        Direction::Left => if tempo { ('>', '8') } else { ('=', '8') },
        Direction::Right => if tempo { ('8', '<') } else { ('8', '=') },
        Direction::Still => (' ', ' '),
    };
    let r = vec![a, b];
    assert(r@ =~= head_glyph(d, tempo));
    r
}

/// A cell of the grid painted with two characters.
fn grid_cell(p: Point, a: char, b: char, fg: Color, bg: Color) -> (r: Cell)
    requires
        on_screen(p),
    ensures
        cell_is(r, 2 * p.x, p.y as int, seq![a, b], fg, bg),
{
    let (col, row) = cmd_goto(p.x * 2, p.y);
    let text = vec![a, b];
    assert(text@ =~= seq![a, b]);
    Cell { col, row, text, fg, bg }
}

/// Blanks the grid cell at `p`, as when the tail leaves it.
pub fn erase_cell(p: Point) -> (r: Cell)
    requires
        on_screen(p),
    ensures
        cell_is(r, 2 * p.x, p.y as int, seq![' ', ' '], Color::Black, Color::Black),
{
    grid_cell(p, ' ', ' ', Color::Black, Color::Black)
}

/// An apple at `p` with leaf number `leaf_kind`: the leaf on the row above,
/// the fruit on its own cell.
pub fn draw_apple_with(p: Point, leaf_kind: u64) -> (r: Vec<Cell>)
    requires
        in_bounds(p),
        leaf_kind < 4,
    ensures
        r.len() == 2,
        cell_is(r[0], 2 * p.x, p.y - 1, leaf_of(leaf_kind as int), Color::Green, Color::Black),
        cell_is(r[1], 2 * p.x, p.y as int, seq!['(', ')'], Color::Yellow, Color::Red),
{
    let leaf: Vec<char> = if leaf_kind == 0 {
        vec!['o', '\\']
    } else if leaf_kind == 1 {
        vec![' ', '/', 'o']
    } else if leaf_kind == 2 {
        vec![' ', '|', 'D']
    } else {
        vec![' ', '|', '>']
    };
    assert(leaf@ =~= leaf_of(leaf_kind as int));
    let (col, row) = cmd_goto(p.x * 2, p.y - 1);
    let mut r: Vec<Cell> = Vec::new();
    r.push(Cell { col, row, text: leaf, fg: Color::Green, bg: Color::Black });
    r.push(grid_cell(p, '(', ')', Color::Yellow, Color::Red));
    r
}

/// An apple at `p` with a random leaf.
pub fn draw_apple(p: Point) -> (r: Vec<Cell>)
    requires
        in_bounds(p),
    ensures
        r.len() == 2,
        is_leaf_cell(r[0], p),
        cell_is(r[1], 2 * p.x, p.y as int, seq!['(', ')'], Color::Yellow, Color::Red),
{
    let k = random_below(4);
    let r = draw_apple_with(p, k);
    assert(cell_is(r[0], 2 * p.x, p.y - 1, leaf_of(k as int), Color::Green, Color::Black));
    r
}

/// Both cells of every apple, in order.
pub fn draw_apples(apples: &Vec<Point>) -> (r: Vec<Cell>)
    requires
        forall|i: int| 0 <= i < apples.len() ==> in_bounds(#[trigger] apples@[i]),
    ensures
        r.len() == 2 * apples.len(),
        forall|i: int| 0 <= i < apples.len() ==> cell_is(
            #[trigger] r[2 * i + 1],
            2 * apples@[i].x,
            apples@[i].y as int,
            seq!['(', ')'],
            Color::Yellow,
            Color::Red,
        ),
        forall|i: int| 0 <= i < apples.len() ==> is_leaf_cell(#[trigger] r[2 * i], apples@[i]),
{
    let mut r: Vec<Cell> = Vec::new();
    let mut i: usize = 0;
    while i < apples.len()
        invariant
            i <= apples.len(),
            forall|j: int| 0 <= j < apples.len() ==> in_bounds(#[trigger] apples@[j]),
            r.len() == 2 * i,
            forall|j: int| 0 <= j < i ==> cell_is(
                #[trigger] r[2 * j + 1],
                2 * apples@[j].x,
                apples@[j].y as int,
                seq!['(', ')'],
                Color::Yellow,
                Color::Red,
            ),
            forall|j: int| 0 <= j < i ==> is_leaf_cell(#[trigger] r[2 * j], apples@[j]),
        decreases apples.len() - i,
    {
        let mut pair = draw_apple(apples[i]);
        let fruit = pair.pop().unwrap();
        let leaf = pair.pop().unwrap();
        let ghost prev = r@;
        r.push(leaf);
        r.push(fruit);
        assert forall|j: int| 0 <= j < i + 1 implies is_leaf_cell(#[trigger] r[2 * j], apples@[j]) by {
            if j < i {
                assert(r[2 * j] == prev[2 * j]);
            }
        }
        i += 1;
    }
    r
}

/// The apples of `after` that are not where `before` had them, in order.
pub open spec fn changed_apples(before: Seq<Point>, after: Seq<Point>) -> Seq<Point>
    decreases after.len(),
{
    if after.len() == 0 {
        Seq::empty()
    } else {
        let rest = changed_apples(before, after.drop_last());
        let i = after.len() - 1;
        if i < before.len() && before[i] == after[i] {
            rest
        } else {
            rest.push(after[i])
        }
    }
}

impl GameState {
    /// Paints a frame: the status bar, every tail segment and the head, and
    /// turns the head animation one frame on.
    pub fn draw_game(&mut self) -> (r: Vec<Cell>)
        requires
            wf(old(self)@),
        ensures
            final(self)@ == (GameModel { tempo: !old(self).tempo, ..old(self)@ }),
            r.len() == old(self).snake.tail.len() + 3,
            ({
                let g = old(self)@;
                let bar = bar_color(g.warning);
                let n = g.snake.tail.len() as int;
                &&& cell_is(r[0], 0, 0, Seq::new(BAR_WIDTH as nat, |i: int| ' '), Color::Black, bar)
                &&& cell_is(r[1], 0, 0, status_line(g.points as nat, g.speed_mult, g.paused), Color::Black, bar)
                &&& forall|i: int| 0 <= i < n ==> cell_is(#[trigger] r[i + 2], 2 * g.snake.tail[i].x,
                    g.snake.tail[i].y as int, seq!['8', '8'], Color::White, Color::DarkGrey)
                &&& cell_is(r[n + 2], 2 * g.snake.head.x, g.snake.head.y as int,
                    head_glyph(g.snake.direction, !g.tempo), Color::White, Color::Black)
            }),
    {
        self.tempo = !self.tempo;
        let bar = if self.warning { Color::Red } else { Color::DarkGreen };
        let mut r: Vec<Cell> = Vec::new();
        let mut blank: Vec<char> = Vec::new();
        let mut k: usize = 0;
        while k < BAR_WIDTH
            invariant
                k <= BAR_WIDTH,
                blank@ =~= Seq::new(k as nat, |i: int| ' '),
            decreases BAR_WIDTH - k,
        {
            blank.push(' ');
            k += 1;
        }
        let (col, row) = cmd_goto(0, 0);
        r.push(Cell { col, row, text: blank, fg: Color::Black, bg: bar });
        let text = status_text(self.points, self.speed_mult, self.paused);
        r.push(Cell { col, row, text, fg: Color::Black, bg: bar });
        let n = self.snake.tail.len();
        let mut i: usize = 0;
        while i < n
            invariant
                i <= n,
                n == self.snake.tail.len(),
                wf(old(self)@),
                self.snake.tail@ == old(self).snake.tail@,
                r.len() == i + 2,
                cell_is(r[0], 0, 0, Seq::new(BAR_WIDTH as nat, |i: int| ' '), Color::Black, bar),
                cell_is(r[1], 0, 0, status_line(self.points as nat, self.speed_mult as int, self.paused), Color::Black, bar),
                forall|j: int| 0 <= j < i ==> cell_is(#[trigger] r[j + 2], 2 * self.snake.tail@[j].x,
                    self.snake.tail@[j].y as int, seq!['8', '8'], Color::White, Color::DarkGrey),
            decreases n - i,
        {
            assert(on_screen(old(self)@.snake.tail[i as int]));
            let c = grid_cell(self.snake.tail[i], '8', '8', Color::White, Color::DarkGrey);
            r.push(c);
            i += 1;
        }
        let head = self.snake.head_pos;
        let (col, row) = cmd_goto(head.x * 2, head.y);
        let text = head_text(self.snake.direction, self.tempo);
        r.push(Cell { col, row, text, fg: Color::White, bg: Color::Black });
        r
    }

    /// The apples that moved since `before`, drawn anew.
    pub fn apple_updates(&self, before: &Vec<Point>) -> (r: Vec<Cell>)
        requires
            wf(self@),
        ensures
            ({
                let c = changed_apples(before@, self.apples@);
                &&& r.len() == 2 * c.len()
                &&& forall|i: int| 0 <= i < c.len() ==> cell_is(#[trigger] r[2 * i + 1], 2 * c[i].x, c[i].y as int,
                    seq!['(', ')'], Color::Yellow, Color::Red)
                &&& forall|i: int| 0 <= i < c.len() ==> is_leaf_cell(#[trigger] r[2 * i], c[i])
            }),
    {
        let mut moved: Vec<Point> = Vec::new();
        let mut i: usize = 0;
        while i < self.apples.len()
            invariant
                i <= self.apples.len(),
                wf(self@),
                moved@ == changed_apples(before@, self.apples@.take(i as int)),
                forall|j: int| 0 <= j < moved.len() ==> in_food_area(#[trigger] moved@[j]),
            decreases self.apples.len() - i,
        {
            let ghost prev = moved@;
            assert(self.apples@.take(i + 1).drop_last() =~= self.apples@.take(i as int));
            if i >= before.len() || before[i] != self.apples[i] {
                moved.push(self.apples[i]);
                assert(in_food_area(self@.apples[i as int]));
                assert forall|j: int| 0 <= j < moved.len() implies in_food_area(#[trigger] moved@[j]) by {
                    if j < prev.len() {
                        assert(moved@[j] == prev[j]);
                    }
                }
            }
            i += 1;
        }
        assert(self.apples@.take(self.apples.len() as int) =~= self.apples@);
        assert(moved@ == changed_apples(before@, self.apples@));
        draw_apples(&moved)
    }
}

} // verus!
