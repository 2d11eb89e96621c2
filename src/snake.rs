use vstd::prelude::*;
use crate::point::{Direction, Point, PLAYABLE_SIZE_MAX, in_bounds, stepped, can_step, dx, dy, opposite, lemma_step_then_reverse};

verus! {

/// The snake: where it heads, its head, and its tail from the oldest segment
/// to the newest.
pub struct Snake {
    pub direction: Direction,
    pub head_pos: Point,
    pub tail: Vec<Point>,
}

/// What a snake is, as plain values.
pub struct SnakeModel {
    pub direction: Direction,
    pub head: Point,
    pub tail: Seq<Point>,
}

impl View for Snake {
    type V = SnakeModel;

    open spec fn view(&self) -> SnakeModel {
        SnakeModel { direction: self.direction, head: self.head_pos, tail: self.tail@ }
    }
}

/// The snake after one move: the head takes a step, the oldest tail segment
/// is dropped and the previous head becomes the newest one.
pub open spec fn moved(s: SnakeModel) -> SnakeModel
    recommends
        s.tail.len() > 0,
{
    SnakeModel {
        direction: s.direction,
        head: stepped(s.head, s.direction),
        tail: s.tail.drop_first().push(s.head),
    }
}

/// The head is inside the playable square and on no tail segment.
pub open spec fn in_bounds_and_free(s: SnakeModel) -> bool {
    in_bounds(s.head) && !s.tail.contains(s.head)
}

impl Snake {
    /// Moves the snake one cell in its direction; returns the tail segment
    /// that it left.
    pub fn move_snake(&mut self) -> (vacated: Point)
        requires
            old(self).tail.len() > 0,
            can_step(old(self).head_pos),
        ensures
            final(self)@ == moved(old(self)@),
            final(self).head_pos.x == old(self).head_pos.x + dx(old(self).direction),
            final(self).head_pos.y == old(self).head_pos.y + dy(old(self).direction),
            final(self).tail.len() == old(self).tail.len(),
            vacated == old(self).tail@[0],
    {
        let prev = self.head_pos;
        self.head_pos = prev.step(self.direction);
        let vacated = self.tail.remove(0);
        self.tail.push(prev);
        vacated
    }

    /// Whether the head is inside the playable square and clear of the tail.
    pub fn check_snake_out_pos(&self) -> (r: bool)
        ensures
            r == in_bounds_and_free(self@),
    {
        let head = self.head_pos;
        if head.x < 0 || head.x > PLAYABLE_SIZE_MAX || head.y < 1 || head.y > PLAYABLE_SIZE_MAX {
            return false;
        }
        let mut i: usize = 0;
        while i < self.tail.len()
            invariant
                i <= self.tail.len(),
                head == self.head_pos,
                in_bounds(head),
                forall|j: int| 0 <= j < i ==> self.tail@[j] != head,
            decreases self.tail.len() - i,
        {
            if self.tail[i] == head {
                assert(self@.tail[i as int] == head);
                assert(self@.tail.contains(head));
                return false;
            }
            i += 1;
        }
        true
    }

    /// Whether the head stands on `apple`.
    pub fn snake_eated_apple(&self, apple: Point) -> (r: bool)
        ensures
            r == (self.head_pos == apple),
    {
        self.head_pos == apple
    }
}

/// A move shifts the head by the unit vector of the direction and keeps the
/// tail's length; a move and then a move the opposite way bring the head back
/// to where it was.
pub proof fn lemma_move_and_back(s: SnakeModel)
    requires
        s.tail.len() >= 1,
        can_step(s.head),
        can_step(stepped(s.head, s.direction)),
    ensures
        moved(s).head.x == s.head.x + dx(s.direction),
        moved(s).head.y == s.head.y + dy(s.direction),
        moved(s).tail.len() == s.tail.len(),
        moved(SnakeModel { direction: opposite(s.direction), ..moved(s) }).head == s.head,
{
    lemma_step_then_reverse(s.head, s.direction);
}

/// Whether a snake collides depends on its head and on which cells its tail
/// covers, not on the order of the segments nor on the direction.
pub proof fn lemma_collision_ignores_order(a: SnakeModel, b: SnakeModel)
    requires
        a.head == b.head,
        a.tail.to_set() == b.tail.to_set(),
    ensures
        in_bounds_and_free(a) == in_bounds_and_free(b),
{
    assert(a.tail.contains(a.head) == a.tail.to_set().contains(a.head));
    assert(b.tail.contains(b.head) == b.tail.to_set().contains(b.head));
}

} // verus!
