use vstd::prelude::*;
use crate::point::{Direction, Point, opposite, stepped, in_bounds, on_screen, can_step};
use crate::snake::{Snake, SnakeModel, moved, in_bounds_and_free};
use crate::food::{FOOD_CELLS, in_food_area, relocation, lemma_relocation, relocate_apple, random_below, reset_apple};

verus! {

/// The speed multiplier a round starts with.
pub const SPEED_MULT_START: u64 = 6;

/// The fastest setting of the speed multiplier (lower is faster).
pub const SPEED_MULT_MIN: u64 = 1;

/// The slowest setting of the speed multiplier.
pub const SPEED_MULT_MAX: u64 = 20;

/// One key press, as the round reads it.
#[derive(Clone, Copy, PartialEq, Eq, Structural, Debug)]
pub enum Key {
    Up,
    Down,
    Left,
    Right,
    Char(char),
    Other,
}

/// What a tick did, and so what the loop around the round does next.
#[derive(Clone, Copy, PartialEq, Eq, Structural, Debug)]
pub enum Outcome {
    /// A quit key: the round ends at once.
    Quit,
    /// The tick is skipped: nothing moves, nothing is drawn, no pause follows.
    Skip,
    /// The game is paused: the frame is drawn again and nothing moves.
    Paused,
    /// The snake moved and left the given tail cell.
    Moved(Point),
    /// A first collision: the snake was put back and the status bar warns.
    Warned,
    /// A fatal collision: the round is over.
    GameOver,
}

/// The state of one round.
pub struct GameState {
    pub snake: Snake,
    pub apples: Vec<Point>,
    pub points: u64,
    pub speed_mult: u64,
    pub paused: bool,
    /// Whether a first collision is forgiven.
    pub grace_enabled: bool,
    /// Set by a forgiven collision, cleared by the next good move.
    pub warning: bool,
    /// Which of the two head glyphs the next frame shows.
    pub tempo: bool,
}

/// A round as plain values.
pub struct GameModel {
    pub snake: SnakeModel,
    pub apples: Seq<Point>,
    pub points: int,
    pub speed_mult: int,
    pub paused: bool,
    pub grace_enabled: bool,
    pub warning: bool,
    pub tempo: bool,
}

impl View for GameState {
    type V = GameModel;

    open spec fn view(&self) -> GameModel {
        GameModel {
            snake: self.snake@,
            apples: self.apples@,
            points: self.points as int,
            speed_mult: self.speed_mult as int,
            paused: self.paused,
            grace_enabled: self.grace_enabled,
            warning: self.warning,
            tempo: self.tempo,
        }
    }
}

/// What holds of a round between ticks.
pub open spec fn wf(g: GameModel) -> bool {
    &&& g.snake.tail.len() >= 1
    &&& in_bounds(g.snake.head)
    &&& forall|i: int| 0 <= i < g.snake.tail.len() ==> on_screen(#[trigger] g.snake.tail[i])
    &&& forall|i: int| 0 <= i < g.apples.len() ==> in_food_area(#[trigger] g.apples[i])
    &&& SPEED_MULT_MIN <= g.speed_mult <= SPEED_MULT_MAX
    &&& 0 <= g.points < g.snake.tail.len()
}

/// The direction that a key asks for; `Still` for a key that asks for none.
pub open spec fn key_direction(k: Key) -> Direction {
    match k {
        Key::Up => Direction::Up,
        Key::Down => Direction::Down,
        Key::Left => Direction::Left,
        Key::Right => Direction::Right,
        _ => Direction::Still,
    }
}

/// A turn is taken unless it reverses the snake, or at any time while the
/// snake recovers from a forgiven collision.
pub open spec fn accepts(current: Direction, requested: Direction, recovering: bool) -> bool {
    recovering || requested != opposite(current)
}

/// The multiplier after a `-` key.
pub open spec fn slower(m: int) -> int {
    if m < SPEED_MULT_MAX { m + 1 } else { m }
}

/// The multiplier after a `+` key.
pub open spec fn faster(m: int) -> int {
    if m > SPEED_MULT_MIN { m - 1 } else { m }
}

pub open spec fn with_snake(g: GameModel, s: SnakeModel, warning: bool) -> GameModel {
    GameModel {
        snake: s,
        apples: g.apples,
        points: g.points,
        speed_mult: g.speed_mult,
        paused: g.paused,
        grace_enabled: g.grace_enabled,
        warning: warning,
        tempo: g.tempo,
    }
}

pub open spec fn with_controls(g: GameModel, speed_mult: int, paused: bool) -> GameModel {
    GameModel {
        snake: g.snake,
        apples: g.apples,
        points: g.points,
        speed_mult: speed_mult,
        paused: paused,
        grace_enabled: g.grace_enabled,
        warning: g.warning,
        tempo: g.tempo,
    }
}

/// The snake turned to `d`, or as it was for `Still`.
pub open spec fn turned(s: SnakeModel, d: Direction) -> SnakeModel {
    if d == Direction::Still {
        s
    } else {
        SnakeModel { direction: d, head: s.head, tail: s.tail }
    }
}

/// The apples `0..n` checked in order against the head: each one there is
/// eaten, scores a point, grows the tail by a copy of the head and moves to
/// the place that its draw gives.
pub open spec fn feed(g: GameModel, draws: Seq<u64>, n: nat) -> GameModel
    decreases n,
{
    if n == 0 {
        g
    } else {
        let h = feed(g, draws, (n - 1) as nat);
        let i = n - 1;
        if h.apples[i] == h.snake.head {
            GameModel {
                snake: SnakeModel {
                    direction: h.snake.direction,
                    head: h.snake.head,
                    tail: h.snake.tail.push(h.snake.head),
                },
                apples: h.apples.update(i, relocation(h.apples[i], draws[i])),
                points: h.points + 1,
                speed_mult: h.speed_mult,
                paused: h.paused,
                grace_enabled: h.grace_enabled,
                warning: h.warning,
                tempo: h.tempo,
            }
        } else {
            h
        }
    }
}

/// A tick past the keys: turn, move, then collide or feed.
pub open spec fn advance(g: GameModel, requested: Direction, draws: Seq<u64>) -> (GameModel, Outcome) {
    if g.paused {
        (g, Outcome::Paused)
    } else {
        let t = turned(g.snake, requested);
        let m = moved(t);
        if !in_bounds_and_free(m) {
            if g.grace_enabled && !g.warning {
                (with_snake(g, t, true), Outcome::Warned)
            } else {
                (with_snake(g, m, g.warning), Outcome::GameOver)
            }
        } else {
            (feed(with_snake(g, m, false), draws, g.apples.len()), Outcome::Moved(g.snake.tail[0]))
        }
    }
}

/// One tick of a round for a key (or none) and one number per apple, each
/// drawn below `FOOD_CELLS - 1`.
pub open spec fn step(g: GameModel, key: Option<Key>, draws: Seq<u64>) -> (GameModel, Outcome) {
    match key {
        Some(Key::Char(c)) => {
            if c == 'q' || c == 'c' {
                (g, Outcome::Quit)
            } else if c == '-' {
                (with_controls(g, slower(g.speed_mult), g.paused), Outcome::Skip)
            } else if c == '+' {
                (with_controls(g, faster(g.speed_mult), g.paused), Outcome::Skip)
            } else if c == ' ' {
                (with_controls(g, g.speed_mult, !g.paused), Outcome::Skip)
            } else {
                (g, Outcome::Skip)
            }
        },
        Some(Key::Other) => advance(g, Direction::Still, draws),
        Some(k) => {
            if accepts(g.snake.direction, key_direction(k), g.warning) {
                advance(g, key_direction(k), draws)
            } else {
                (g, Outcome::Skip)
            }
        },
        None => advance(g, Direction::Still, draws),
    }
}

/// Draws that `step` can use for `n` apples.
pub open spec fn valid_draws(draws: Seq<u64>, n: int) -> bool {
    draws.len() == n && forall|i: int| 0 <= i < n ==> #[trigger] draws[i] < FOOD_CELLS - 1
}


proof fn lemma_feed(g: GameModel, draws: Seq<u64>, n: nat)
    requires
        wf(g),
        n <= g.apples.len(),
        valid_draws(draws, g.apples.len() as int),
    ensures
        wf(feed(g, draws, n)),
        feed(g, draws, n).snake.head == g.snake.head,
        feed(g, draws, n).snake.direction == g.snake.direction,
        feed(g, draws, n).apples.len() == g.apples.len(),
        forall|j: int| n <= j < g.apples.len() ==> feed(g, draws, n).apples[j] == g.apples[j],
        feed(g, draws, n).snake.tail.len() - g.snake.tail.len() == feed(g, draws, n).points - g.points,
        feed(g, draws, n).points >= g.points,
        feed(g, draws, n).speed_mult == g.speed_mult,
        feed(g, draws, n).paused == g.paused,
        feed(g, draws, n).grace_enabled == g.grace_enabled,
        feed(g, draws, n).warning == g.warning,
        feed(g, draws, n).tempo == g.tempo,
    decreases n,
{
    if n > 0 {
        let i = n - 1;
        lemma_feed(g, draws, i as nat);
        let h = feed(g, draws, i as nat);
        if h.apples[i] == h.snake.head {
            lemma_relocation(h.apples[i], draws[i]);
            let f = feed(g, draws, n);
            assert forall|k: int| 0 <= k < f.snake.tail.len() implies on_screen(#[trigger] f.snake.tail[k]) by {
                if k < h.snake.tail.len() {
                    assert(f.snake.tail[k] == h.snake.tail[k]);
                }
            }
            assert forall|k: int| 0 <= k < f.apples.len() implies in_food_area(#[trigger] f.apples[k]) by {
                if k != i {
                    assert(f.apples[k] == h.apples[k]);
                }
            }
        }
    }
}

/// A copy of a sequence of points.
fn copy_points(v: &Vec<Point>) -> (r: Vec<Point>)
    ensures
        r@ == v@,
{
    let mut r: Vec<Point> = Vec::new();
    let mut i: usize = 0;
    while i < v.len()
        invariant
            i <= v.len(),
            r@ == v@.subrange(0, i as int),
        decreases v.len() - i,
    {
        r.push(v[i]);
        i += 1;
        assert(r@ =~= v@.subrange(0, i as int));
    }
    assert(r@ =~= v@);
    r
}

/// Apples that a new round starts with.
pub const APPLE_COUNT: usize = 4;

/// The pause after a tick, in milliseconds: twenty per step of the
/// multiplier, three times as long after a forgiven collision.
pub open spec fn frame_delay(speed_mult: int, outcome: Outcome) -> int {
    if outcome == Outcome::Warned { speed_mult * 20 * 3 } else { speed_mult * 20 }
}

impl GameState {
    /// A new round: the snake at (3, 2) heading right, with a tail at (2, 1)
    /// and (2, 2) (it starts at (2, 2) and makes its first move at once), and
    /// four apples on random food cells.
    pub fn new(grace_enabled: bool) -> (r: GameState)
        ensures
            wf(r@),
            r.snake.direction == Direction::Right,
            r.snake.head_pos == (Point { x: 3, y: 2 }),
            r.snake.tail@ == seq![Point { x: 2, y: 1 }, Point { x: 2, y: 2 }],
            r.apples.len() == APPLE_COUNT,
            r.points == 0,
            r.speed_mult == SPEED_MULT_START,
            !r.paused,
            r.grace_enabled == grace_enabled,
            !r.warning,
            !r.tempo,
    {
        let mut apples: Vec<Point> = Vec::new();
        let mut i: usize = 0;
        while i < APPLE_COUNT
            invariant
                i <= APPLE_COUNT,
                apples.len() == i,
                forall|j: int| 0 <= j < i ==> in_food_area(#[trigger] apples@[j]),
            decreases APPLE_COUNT - i,
        {
            apples.push(reset_apple());
            i += 1;
        }
        let mut snake = Snake {
            direction: Direction::Right,
            head_pos: Point { x: 2, y: 2 },
            tail: vec![Point { x: 2, y: 0 }, Point { x: 2, y: 1 }],
        };
        snake.move_snake();
        assert(snake.tail@ =~= seq![Point { x: 2, y: 1 }, Point { x: 2, y: 2 }]);
        GameState::with_parts(snake, apples, grace_enabled)
    }

    /// How long to wait after a tick with the given outcome.
    pub fn delay_ms(&self, outcome: Outcome) -> (r: u64)
        requires
            wf(self@),
        ensures
            r == frame_delay(self.speed_mult as int, outcome),
    {
        if outcome == Outcome::Warned {
            self.speed_mult * 20 * 3
        } else {
            self.speed_mult * 20
        }
    }

    /// A round from the given snake and apples, at the starting speed,
    /// running, with no warning shown.
    pub fn with_parts(snake: Snake, apples: Vec<Point>, grace_enabled: bool) -> (r: GameState)
        requires
            snake.tail.len() >= 1,
            in_bounds(snake.head_pos),
            forall|i: int| 0 <= i < snake.tail.len() ==> on_screen(#[trigger] snake.tail@[i]),
            forall|i: int| 0 <= i < apples.len() ==> in_food_area(#[trigger] apples@[i]),
        ensures
            wf(r@),
            r.snake@ == snake@,
            r.apples@ == apples@,
            r.points == 0,
            r.speed_mult == SPEED_MULT_START,
            !r.paused,
            r.grace_enabled == grace_enabled,
            !r.warning,
            !r.tempo,
    {
        GameState {
            snake,
            apples,
            points: 0,
            speed_mult: SPEED_MULT_START,
            paused: false,
            grace_enabled,
            warning: false,
            tempo: false,
        }
    }

    /// One tick of the round, for a key (or none) and one number per apple,
    /// each drawn below `FOOD_CELLS - 1`, that places an apple eaten.
    pub fn step_with(&mut self, key: Option<Key>, draws: &Vec<u64>) -> (r: Outcome)
        requires
            wf(old(self)@),
            valid_draws(draws@, old(self).apples.len() as int),
        ensures
            (final(self)@, r) == step(old(self)@, key, draws@),
            r != Outcome::GameOver ==> wf(final(self)@),
    {
        let requested = match key {
            Some(Key::Char(c)) => {
                if c == 'q' || c == 'c' {
                    return Outcome::Quit;
                } else if c == '-' {
                    if self.speed_mult < SPEED_MULT_MAX {
                        self.speed_mult = self.speed_mult + 1;
                    }
                } else if c == '+' {
                    if self.speed_mult > SPEED_MULT_MIN {
                        self.speed_mult = self.speed_mult - 1;
                    }
                } else if c == ' ' {
                    self.paused = !self.paused;
                }
                return Outcome::Skip;
            },
            Some(Key::Up) => Direction::Up,
            Some(Key::Down) => Direction::Down,
            Some(Key::Left) => Direction::Left,
            Some(Key::Right) => Direction::Right,
            _ => Direction::Still,
        };
        if requested != Direction::Still && !self.warning
            && requested == self.snake.direction.opposite() {
            return Outcome::Skip;
        }
        self.advance(requested, draws)
    }

    fn advance(&mut self, requested: Direction, draws: &Vec<u64>) -> (r: Outcome)
        requires
            wf(old(self)@),
            valid_draws(draws@, old(self).apples.len() as int),
        ensures
            (final(self)@, r) == advance(old(self)@, requested, draws@),
            r != Outcome::GameOver ==> wf(final(self)@),
    {
        if self.paused {
            return Outcome::Paused;
        }
        assert(forall|i: int| 0 <= i < old(self)@.apples.len() ==> in_food_area(#[trigger] old(self)@.apples[i]));
        assert(forall|i: int| 0 <= i < old(self).apples@.len() ==> in_food_area(#[trigger] old(self).apples@[i]));
        if requested != Direction::Still {
            self.snake.direction = requested;
        }
        let saved_head = self.snake.head_pos;
        let saved_tail = copy_points(&self.snake.tail);
        let vacated = self.snake.move_snake();
        if !self.snake.check_snake_out_pos() {
            if self.grace_enabled && !self.warning {
                self.snake.head_pos = saved_head;
                self.snake.tail = saved_tail;
                self.warning = true;
                assert(self.snake.tail@ == old(self).snake.tail@);
                return Outcome::Warned;
            }
            return Outcome::GameOver;
        }
        self.warning = false;
        let ghost g0 = self@;
        assert forall|k: int| 0 <= k < g0.snake.tail.len() implies on_screen(#[trigger] g0.snake.tail[k]) by {
            if k < g0.snake.tail.len() - 1 {
                assert(g0.snake.tail[k] == old(self)@.snake.tail[k + 1]);
            } else {
                assert(g0.snake.tail[k] == old(self)@.snake.head);
            }
        }
        let n = self.apples.len();
        let mut i: usize = 0;
        while i < n
            invariant
                i <= n,
                n == g0.apples.len(),
                wf(g0),
                valid_draws(draws@, n as int),
                self@ == feed(g0, draws@, i as nat),
            decreases n - i,
        {
            proof {
                lemma_feed(g0, draws@, i as nat);
            }
            if self.snake.snake_eated_apple(self.apples[i]) {
                self.snake.tail.push(self.snake.head_pos);
                // the score stays below the tail length, which fits in a usize
                assert(self.snake.tail.len() <= usize::MAX);
                self.points = self.points + 1;
                let fresh = relocate_apple(self.apples[i], draws[i]);
                self.apples.set(i, fresh);
            }
            i += 1;
            assert(self@ =~= feed(g0, draws@, i as nat));
        }
        proof {
            lemma_feed(g0, draws@, n as nat);
        }
        Outcome::Moved(vacated)
    }

    /// One tick of the round for a key (or none): the apples eaten move to
    /// random food cells.
    pub fn tick(&mut self, key: Option<Key>) -> (r: Outcome)
        requires
            wf(old(self)@),
        ensures
            exists|d: Seq<u64>| valid_draws(d, old(self).apples.len() as int)
                && (final(self)@, r) == step(old(self)@, key, d),
            r != Outcome::GameOver ==> wf(final(self)@),
    {
        let mut draws: Vec<u64> = Vec::new();
        let n = self.apples.len();
        let mut i: usize = 0;
        while i < n
            invariant
                i <= n,
                draws@.len() == i,
                forall|j: int| 0 <= j < i ==> #[trigger] draws@[j] < FOOD_CELLS - 1,
            decreases n - i,
        {
            draws.push(random_below(FOOD_CELLS - 1));
            i += 1;
        }
        self.step_with(key, &draws)
    }
}

/// How many of `apples` lie on `p`.
pub open spec fn count_at(apples: Seq<Point>, p: Point) -> nat
    decreases apples.len(),
{
    if apples.len() == 0 {
        0
    } else {
        count_at(apples.drop_last(), p) + if apples.last() == p { 1nat } else { 0nat }
    }
}

/// The multiplier after a run of `+` and `-` presses; other characters leave it.
pub open spec fn speed_after(m: int, presses: Seq<char>) -> int
    decreases presses.len(),
{
    if presses.len() == 0 {
        m
    } else {
        let before = speed_after(m, presses.drop_last());
        if presses.last() == '-' {
            slower(before)
        } else if presses.last() == '+' {
            faster(before)
        } else {
            before
        }
    }
}

proof fn lemma_feed_count(g: GameModel, draws: Seq<u64>, n: nat)
    requires
        wf(g),
        n <= g.apples.len(),
        valid_draws(draws, g.apples.len() as int),
    ensures
        feed(g, draws, n).points - g.points == count_at(g.apples.take(n as int), g.snake.head),
    decreases n,
{
    if n > 0 {
        lemma_feed_count(g, draws, (n - 1) as nat);
        lemma_feed(g, draws, (n - 1) as nat);
        assert(g.apples.take(n as int).drop_last() =~= g.apples.take(n - 1));
    }
}

/// A turn key is refused exactly when it reverses the snake outside a
/// recovery: then the tick is skipped and nothing changes. Otherwise, in a
/// running game, the snake heads the new way after the tick.
pub proof fn lemma_turn_rule(g: GameModel, k: Key, draws: Seq<u64>)
    requires
        wf(g),
        valid_draws(draws, g.apples.len() as int),
        k == Key::Up || k == Key::Down || k == Key::Left || k == Key::Right,
    ensures
        !accepts(g.snake.direction, key_direction(k), g.warning) ==> step(g, Some(k), draws)
            == (g, Outcome::Skip),
        !g.paused ==> (step(g, Some(k), draws).0.snake.direction == key_direction(k) <==> accepts(
            g.snake.direction,
            key_direction(k),
            g.warning,
        )),
{
    let d = key_direction(k);
    if accepts(g.snake.direction, d, g.warning) && !g.paused {
        let m = moved(turned(g.snake, d));
        if in_bounds_and_free(m) {
            lemma_feed(with_snake(g, m, false), draws, g.apples.len());
        }
    }
}

/// After a move the head has taken one step the way the snake heads, the
/// score has grown by the number of apples that lay there, and the tail by as
/// much: by nothing when no apple lay there, by one when one did.
pub proof fn lemma_move_growth(g: GameModel, key: Option<Key>, draws: Seq<u64>)
    requires
        wf(g),
        valid_draws(draws, g.apples.len() as int),
        step(g, key, draws).1 is Moved,
    ensures
        ({
            let h = step(g, key, draws).0;
            &&& h.snake.head == stepped(g.snake.head, h.snake.direction)
            &&& h.points == g.points + count_at(g.apples, h.snake.head)
            &&& h.snake.tail.len() == g.snake.tail.len() + count_at(g.apples, h.snake.head)
            &&& count_at(g.apples, h.snake.head) == 0 ==> h.snake.tail.len() == g.snake.tail.len()
            &&& count_at(g.apples, h.snake.head) == 1 ==> h.snake.tail.len() == g.snake.tail.len() + 1
        }),
{
    let d = match key {
        Some(Key::Up) => Direction::Up,
        Some(Key::Down) => Direction::Down,
        Some(Key::Left) => Direction::Left,
        Some(Key::Right) => Direction::Right,
        _ => Direction::Still,
    };
    let m = moved(turned(g.snake, d));
    let g1 = with_snake(g, m, false);
    assert(step(g, key, draws) == advance(g, d, draws));
    lemma_feed(g1, draws, g.apples.len());
    lemma_feed_count(g1, draws, g.apples.len());
    assert(g1.apples.take(g.apples.len() as int) =~= g.apples);
}

/// However many `+` and `-` presses come, the multiplier stays within its
/// bounds.
pub proof fn lemma_speed_clamped(m: int, presses: Seq<char>)
    requires
        SPEED_MULT_MIN <= m <= SPEED_MULT_MAX,
    ensures
        SPEED_MULT_MIN <= speed_after(m, presses) <= SPEED_MULT_MAX,
    decreases presses.len(),
{
    if presses.len() > 0 {
        lemma_speed_clamped(m, presses.drop_last());
    }
}

/// A `+` or `-` key changes the multiplier as `faster` or `slower` says and
/// nothing else, and skips the tick.
pub proof fn lemma_speed_keys(g: GameModel, draws: Seq<u64>)
    ensures
        step(g, Some(Key::Char('-')), draws) == (with_controls(g, slower(g.speed_mult), g.paused), Outcome::Skip),
        step(g, Some(Key::Char('+')), draws) == (with_controls(g, faster(g.speed_mult), g.paused), Outcome::Skip),
{
}

/// While paused, no key but the space bar resumes the round, and no tick
/// moves the snake, scores or moves an apple; the space bar resumes it with
/// everything else as it was.
pub proof fn lemma_pause_holds(g: GameModel, key: Option<Key>, draws: Seq<u64>)
    requires
        g.paused,
    ensures
        key != Some(Key::Char(' ')) ==> {
            let h = step(g, key, draws).0;
            &&& h.paused
            &&& h.snake == g.snake
            &&& h.points == g.points
            &&& h.apples == g.apples
        },
        step(g, Some(Key::Char(' ')), draws) == (with_controls(g, g.speed_mult, false), Outcome::Skip),
{
}

/// A collision is forgiven once: the first puts the snake back where it was
/// and shows the warning; the same move again, with no key between, ends
/// the round with the score kept.
pub proof fn lemma_grace_once(g: GameModel, draws: Seq<u64>)
    requires
        wf(g),
        g.grace_enabled,
        !g.warning,
        !g.paused,
        !in_bounds_and_free(moved(g.snake)),
    ensures
        ({
            let (h, first) = step(g, None, draws);
            let (k, second) = step(h, None, draws);
            &&& first == Outcome::Warned
            &&& h.snake == g.snake
            &&& h.warning
            &&& h.points == g.points
            &&& second == Outcome::GameOver
            &&& k.points == g.points
        }),
{
}

/// The round after one tick per key, tick `i` using `draws[i]`.
pub open spec fn run(g: GameModel, keys: Seq<Option<Key>>, draws: Seq<Seq<u64>>) -> GameModel
    decreases keys.len(),
{
    if keys.len() == 0 {
        g
    } else {
        let i = keys.len() - 1;
        step(run(g, keys.drop_last(), draws), keys[i], draws[i]).0
    }
}

/// However many ticks pass while paused, with no space bar among their keys,
/// the snake, the score, the apples and the warning stay as they were and the
/// game stays paused; without `+` or `-` among them nothing changes at all.
pub proof fn lemma_paused_run(g: GameModel, keys: Seq<Option<Key>>, draws: Seq<Seq<u64>>)
    requires
        g.paused,
        forall|i: int| 0 <= i < keys.len() ==> #[trigger] keys[i] != Some(Key::Char(' ')),
    ensures
        ({
            let h = run(g, keys, draws);
            &&& h.paused
            &&& h.snake == g.snake
            &&& h.points == g.points
            &&& h.apples == g.apples
            &&& h.warning == g.warning
            &&& (forall|i: int| 0 <= i < keys.len() ==> #[trigger] keys[i] != Some(Key::Char('+'))
                && keys[i] != Some(Key::Char('-'))) ==> h == g
        }),
    decreases keys.len(),
{
    if keys.len() > 0 {
        let i = keys.len() - 1;
        let rest = keys.drop_last();
        assert forall|j: int| 0 <= j < rest.len() implies #[trigger] rest[j] != Some(Key::Char(' ')) by {
            assert(rest[j] == keys[j]);
        }
        lemma_paused_run(g, rest, draws);
        let h = run(g, rest, draws);
        lemma_pause_holds(h, keys[i], draws[i]);
        if forall|j: int| 0 <= j < keys.len() ==> #[trigger] keys[j] != Some(Key::Char('+'))
            && keys[j] != Some(Key::Char('-')) {
            assert forall|j: int| 0 <= j < rest.len() implies #[trigger] rest[j] != Some(Key::Char('+'))
                && rest[j] != Some(Key::Char('-')) by {
                assert(rest[j] == keys[j]);
            }
            assert(keys[i] != Some(Key::Char('+')));
        }
    }
}

/// Pausing, letting any ticks pass whose keys are neither the space bar nor
/// `+` nor `-`, and unpausing gives back the round exactly as it was.
pub proof fn lemma_pause_resume(
    g: GameModel,
    keys: Seq<Option<Key>>,
    draws: Seq<Seq<u64>>,
    d: Seq<u64>,
)
    requires
        !g.paused,
        forall|i: int| 0 <= i < keys.len() ==> #[trigger] keys[i] != Some(Key::Char(' ')) && keys[i]
            != Some(Key::Char('+')) && keys[i] != Some(Key::Char('-')),
    ensures
        ({
            let p = step(g, Some(Key::Char(' ')), d).0;
            &&& p.paused
            &&& run(p, keys, draws) == p
            &&& step(run(p, keys, draws), Some(Key::Char(' ')), d) == (g, Outcome::Skip)
        }),
{
    let p = step(g, Some(Key::Char(' ')), d).0;
    lemma_paused_run(p, keys, draws);
    assert(with_controls(p, p.speed_mult, false) == g);
}

} // verus!
