//! The snake: an ordered double-ended sequence of segments and the current
//! heading. The head is the last element, the tail the first, and the body is
//! never empty.

use vstd::prelude::*;
use std::collections::VecDeque;
use crate::geometry::{adjacent, lemma_step_adjacent, Coordinate, Direction};

verus! {

/// What one tick of the snake reported: whether the new head landed on food.
pub struct TickRecord {
    pub ate_food: bool,
}

/// The snake's body, tail first and head last, with its current heading.
pub struct Snake {
    pub segments: VecDeque<Coordinate>,
    pub direction: Direction,
}

impl Snake {
    /// The most recently added segment.
    pub open spec fn head(self) -> Coordinate {
        self.segments@.last()
    }

    /// The oldest segment.
    pub open spec fn tail(self) -> Coordinate {
        self.segments@[0]
    }

    /// Every consecutive pair of segments is exactly one grid step apart.
    pub open spec fn linked(self) -> bool {
        forall|i: int|
            0 <= i < self.segments@.len() - 1 ==> adjacent(
                #[trigger] self.segments@[i],
                self.segments@[i + 1],
            )
    }

    /// The body is never empty and its segments form a chain of grid steps.
    pub open spec fn wf(self) -> bool {
        self.segments@.len() >= 1 && self.linked()
    }

    /// Every segment lies on a board of the given dimensions.
    pub open spec fn in_bounds(self, bounds: Coordinate) -> bool {
        forall|i: int| 0 <= i < self.segments@.len() ==> self.segments@[i].in_bounds(bounds)
    }

    /// The head, read off the body.
    pub fn current_head(&self) -> (head: Coordinate)
        requires
            self.segments@.len() >= 1,
        ensures
            head == self.head(),
    {
        self.segments[self.segments.len() - 1]
    }

    /// Appends the step-derived new head in `direction`. Growth is not decided
    /// here: the caller follows up with `shrink_tail` on a tick that moved
    /// without eating.
    pub fn advance_head(&mut self, direction: Direction) -> (new_head: Coordinate)
        requires
            old(self).segments@.len() >= 1,
            old(self).head().can_step_in(direction),
        ensures
            new_head == old(self).head().spec_step_in(direction),
            final(self).segments@ == old(self).segments@.push(new_head),
            final(self).direction == old(self).direction,
    {
        let head = self.current_head();
        let new_head = head.step_in(direction);
        self.segments.push_back(new_head);
        new_head
    }

    /// Removes the oldest segment, keeping the length constant across a tick
    /// that moved without eating.
    pub fn shrink_tail(&mut self)
        requires
            old(self).segments@.len() >= 2,
        ensures
            final(self).segments@ == old(self).segments@.drop_first(),
            final(self).direction == old(self).direction,
    {
        let _ = self.segments.pop_front();
        proof {
            assert(self.segments@ =~= old(self).segments@.drop_first());
        }
    }

    /// One movement step in the current heading: the step-derived new head is
    /// appended; when it does not land on `food_location` the tail is removed,
    /// so the length only grows — by exactly one — on an eating tick.
    pub fn tick(&mut self, food_location: Coordinate) -> (record: TickRecord)
        requires
            old(self).wf(),
            old(self).head().can_step_in(old(self).direction),
        ensures
            final(self).wf(),
            final(self).direction == old(self).direction,
            final(self).head() == old(self).head().spec_step_in(old(self).direction),
            record.ate_food == (final(self).head() == food_location),
            record.ate_food ==> final(self).segments@ == old(self).segments@.push(
                final(self).head(),
            ),
            !record.ate_food ==> final(self).segments@ == old(self).segments@.push(
                final(self).head(),
            ).drop_first(),
            record.ate_food ==> final(self).segments@.len() == old(self).segments@.len() + 1,
            !record.ate_food ==> final(self).segments@.len() == old(self).segments@.len(),
    {
        let direction = self.direction;
        let ghost pre = *self;
        let new_head = self.advance_head(direction);
        proof {
            lemma_step_adjacent(pre.head(), direction);
            assert forall|i: int| 0 <= i < self.segments@.len() - 1 implies adjacent(
                #[trigger] self.segments@[i],
                self.segments@[i + 1],
            ) by {
                if i < pre.segments@.len() - 1 {
                    assert(adjacent(pre.segments@[i], pre.segments@[i + 1]));
                }
            }
        }
        let ate_food = new_head == food_location;
        if !ate_food {
            let ghost grown = *self;
            self.shrink_tail();
            proof {
                assert forall|i: int| 0 <= i < self.segments@.len() - 1 implies adjacent(
                    #[trigger] self.segments@[i],
                    self.segments@[i + 1],
                ) by {
                    assert(adjacent(grown.segments@[i + 1], grown.segments@[i + 2]));
                }
            }
        }
        TickRecord { ate_food }
    }
}

impl Default for Snake {
    /// The starting snake: a single segment at the origin, heading right.
    fn default() -> (snake: Snake)
        ensures
            snake.segments@ =~= seq![Coordinate { x: 0, y: 0 }],
            snake.direction == Direction::Right,
            snake.wf(),
    {
        let mut segments: VecDeque<Coordinate> = VecDeque::with_capacity(1);
        segments.push_back(Coordinate { x: 0, y: 0 });
        Snake { segments, direction: Direction::Right }
    }
}

} // verus!
