//! The game session: one snake, one food cell and the board bounds, with one
//! discrete tick that advances the snake, detects consumption and terminal
//! conditions, and replaces eaten food.
//!
//! A single food item exists at a time: each consumption places exactly one
//! replacement, rather than letting food accumulate over the session.

use vstd::prelude::*;
use crate::food::{contains_from, occupies, occupies_from, place_food};
use crate::geometry::{adjacent, lemma_step_adjacent, Coordinate, Direction};
use crate::snake::Snake;

verus! {

/// What one tick produced.
pub enum TickOutcome {
    /// The snake advanced; `ate_food` says whether it consumed the food and a
    /// replacement was placed.
    Moved { ate_food: bool },
    /// The new head left the board or hit the body: the session is over.
    GameOver,
    /// The snake ate and now covers every cell, so no food can be placed: the
    /// session cannot continue.
    BoardFull,
}

/// A glyph to paint at one cell of the display surface.
pub struct RenderCell {
    pub position: Coordinate,
    pub glyph: char,
}

/// One game session's state. Randomness for food placement is drawn from the
/// process-wide generator at each placement, so no generator is held here.
pub struct Game {
    pub snake: Snake,
    pub food_location: Coordinate,
    pub screen_dimensions: Coordinate,
}

impl Game {
    /// The session invariant: a well-formed snake on the board, and a food
    /// cell on the board that the snake does not occupy.
    pub open spec fn wf(self) -> bool {
        &&& self.snake.wf()
        &&& self.snake.in_bounds(self.screen_dimensions)
        &&& self.food_location.in_bounds(self.screen_dimensions)
        &&& !occupies(self.snake.segments@, self.food_location)
    }

    /// The same session with the snake's heading replaced.
    pub open spec fn with_heading(self, direction: Direction) -> Game {
        Game {
            snake: Snake { direction, segments: self.snake.segments },
            food_location: self.food_location,
            screen_dimensions: self.screen_dimensions,
        }
    }

    /// The heading a frame runs under: the pending intent if one arrived,
    /// otherwise the heading already in effect.
    pub open spec fn applied_heading(self, intent: Option<Direction>) -> Direction {
        match intent {
            Some(d) => d,
            None => self.snake.direction,
        }
    }

    /// How one tick relates the state before it, the state after it and the
    /// reported outcome.
    ///
    /// The prospective head is one step from the head in the current heading.
    /// A step off the board, or onto a body segment that stays (the tail is
    /// about to move away unless the snake eats), ends the session with the
    /// state untouched. Otherwise the snake advances; eating keeps the tail
    /// (net growth one) and places replacement food off the snake, while a
    /// plain move drops the tail and leaves the food where it was. `BoardFull`
    /// is the eating tick after which no free cell remains.
    pub open spec fn tick_transition(pre: Game, post: Game, outcome: TickOutcome) -> bool {
        let head = pre.snake.head();
        let heading = pre.snake.direction;
        let stepped = head.spec_step_in(heading);
        let off_board = !(head.can_step_in(heading) && stepped.in_bounds(pre.screen_dimensions));
        let eats = stepped == pre.food_location;
        let hits_body = if eats {
            occupies(pre.snake.segments@, stepped)
        } else {
            occupies_from(pre.snake.segments@, 1, stepped)
        };
        match outcome {
            TickOutcome::GameOver => post == pre && (off_board || hits_body),
            TickOutcome::Moved { ate_food } => {
                &&& !off_board
                &&& !hits_body
                &&& ate_food == eats
                &&& post.screen_dimensions == pre.screen_dimensions
                &&& post.snake.direction == heading
                &&& post.snake.head() == stepped
                &&& if ate_food {
                    &&& post.snake.segments@ == pre.snake.segments@.push(stepped)
                    &&& post.food_location.in_bounds(post.screen_dimensions)
                    &&& !occupies(post.snake.segments@, post.food_location)
                } else {
                    &&& post.snake.segments@ == pre.snake.segments@.push(stepped).drop_first()
                    &&& post.food_location == pre.food_location
                }
            },
            TickOutcome::BoardFull => {
                &&& !off_board
                &&& !hits_body
                &&& eats
                &&& post.screen_dimensions == pre.screen_dimensions
                &&& post.snake.direction == heading
                &&& post.snake.segments@ == pre.snake.segments@.push(stepped)
                &&& forall|c: Coordinate|
                    c.in_bounds(post.screen_dimensions) ==> occupies(post.snake.segments@, c)
            },
        }
    }

    /// Starts a session on a board of the given dimensions: the default snake
    /// at the origin and a first food cell placed off the snake. `None` comes
    /// back only for the one-cell board, where the snake already covers
    /// everything.
    pub fn new(screen_dimensions: Coordinate) -> (game: Option<Game>)
        requires
            screen_dimensions.x > 0,
            screen_dimensions.y > 0,
        ensures
            match game {
                Some(g) => {
                    &&& g.wf()
                    &&& g.screen_dimensions == screen_dimensions
                    &&& g.snake.segments@ =~= seq![Coordinate { x: 0, y: 0 }]
                    &&& g.snake.direction == Direction::Right
                },
                None => screen_dimensions.x == 1 && screen_dimensions.y == 1,
            },
    {
        let snake = Snake::default();
        match place_food(screen_dimensions, &snake.segments) {
            Some(food_location) => Some(Game { snake, food_location, screen_dimensions }),
            None => {
                proof {
                    if screen_dimensions.x > 1 {
                        assert(Coordinate { x: 1, y: 0 }.in_bounds(screen_dimensions));
                        assert(!occupies(snake.segments@, Coordinate { x: 1, y: 0 }));
                    } else if screen_dimensions.y > 1 {
                        assert(Coordinate { x: 0, y: 1 }.in_bounds(screen_dimensions));
                        assert(!occupies(snake.segments@, Coordinate { x: 0, y: 1 }));
                    }
                }
                None
            },
        }
    }

    /// One discrete tick under the current heading.
    pub fn tick(&mut self) -> (outcome: TickOutcome)
        requires
            old(self).wf(),
        ensures
            Game::tick_transition(*old(self), *final(self), outcome),
            outcome matches TickOutcome::Moved { .. } ==> final(self).wf(),
            outcome matches TickOutcome::GameOver ==> *final(self) == *old(self),
    {
        let head = self.snake.current_head();
        let target = match head.step_within(self.snake.direction, self.screen_dimensions) {
            Some(target) => target,
            None => {
                return TickOutcome::GameOver;
            },
        };
        let eats = target == self.food_location;
        let hits_body = if eats {
            contains_from(&self.snake.segments, 0, target)
        } else {
            contains_from(&self.snake.segments, 1, target)
        };
        if hits_body {
            return TickOutcome::GameOver;
        }
        let ghost pre = *self;
        let record = self.snake.tick(self.food_location);
        proof {
            assert(record.ate_food == eats);
            assert forall|i: int|
                0 <= i < self.snake.segments@.len() implies #[trigger] self.snake.segments@[i].in_bounds(
                self.screen_dimensions,
            ) by {
                if record.ate_food {
                    if i < pre.snake.segments@.len() {
                        assert(pre.snake.segments@[i].in_bounds(pre.screen_dimensions));
                    }
                } else {
                    if i + 1 < pre.snake.segments@.len() {
                        assert(pre.snake.segments@[i + 1].in_bounds(pre.screen_dimensions));
                    }
                }
            }
        }
        if record.ate_food {
            match place_food(self.screen_dimensions, &self.snake.segments) {
                Some(food_location) => {
                    self.food_location = food_location;
                    TickOutcome::Moved { ate_food: true }
                },
                None => TickOutcome::BoardFull,
            }
        } else {
            proof {
                assert(!occupies(self.snake.segments@, self.food_location)) by {
                    assert forall|i: int|
                        0 <= i < self.snake.segments@.len() implies #[trigger] self.snake.segments@[i]
                        != self.food_location by {
                        if i < self.snake.segments@.len() - 1 {
                            assert(pre.snake.segments@[i + 1] == self.snake.segments@[i]);
                            assert(!occupies(pre.snake.segments@, pre.food_location));
                            assert(pre.snake.segments@[i + 1] != pre.food_location);
                        }
                    }
                }
            }
            TickOutcome::Moved { ate_food: false }
        }
    }

    /// One frame of the driver loop: at most one pending direction intent is
    /// applied — strictly before the tick — and then the session ticks once.
    /// The heading the tick runs under is exactly `applied_heading(intent)`,
    /// however many intents were queued: the driver hands over at most one.
    pub fn frame(&mut self, intent: Option<Direction>) -> (outcome: TickOutcome)
        requires
            old(self).wf(),
        ensures
            Game::tick_transition(
                old(self).with_heading(old(self).applied_heading(intent)),
                *final(self),
                outcome,
            ),
            outcome matches TickOutcome::Moved { .. } ==> final(self).wf(),
    {
        if let Some(direction) = intent {
            self.snake.direction = direction;
        }
        proof {
            assert(*self == old(self).with_heading(old(self).applied_heading(intent)));
        }
        self.tick()
    }

    /// The frame's draw list: one `x` per body segment, tail to head, then one
    /// `o` for the food.
    pub fn render_cells(&self) -> (cells: Vec<RenderCell>)
        ensures
            cells@.len() == self.snake.segments@.len() + 1,
            forall|i: int|
                0 <= i < self.snake.segments@.len() ==> #[trigger] cells@[i].position
                    == self.snake.segments@[i] && cells@[i].glyph == 'x',
            cells@.last().position == self.food_location,
            cells@.last().glyph == 'o',
    {
        let n = self.snake.segments.len();
        let mut cells: Vec<RenderCell> = Vec::new();
        let mut i: usize = 0;
        while i < n
            invariant
                i <= n,
                n == self.snake.segments@.len(),
                cells@.len() == i,
                forall|j: int|
                    0 <= j < i ==> #[trigger] cells@[j].position == self.snake.segments@[j]
                        && cells@[j].glyph == 'x',
            decreases n - i,
        {
            cells.push(RenderCell { position: self.snake.segments[i], glyph: 'x' });
            i = i + 1;
        }
        cells.push(RenderCell { position: self.food_location, glyph: 'o' });
        cells
    }
}

/// Whether the snake consumed the food on this tick. A full board only arises
/// through an eating tick.
pub open spec fn ate_in(outcome: TickOutcome) -> bool {
    match outcome {
        TickOutcome::Moved { ate_food } => ate_food,
        TickOutcome::GameOver => false,
        TickOutcome::BoardFull => true,
    }
}

/// How many of the ticks in a run consumed food.
pub open spec fn eaten_count(outcomes: Seq<TickOutcome>) -> int
    decreases outcomes.len(),
{
    if outcomes.len() == 0 {
        0
    } else {
        eaten_count(outcomes.drop_last()) + if ate_in(outcomes.last()) {
            1int
        } else {
            0int
        }
    }
}

/// Whether `states` is a run of the game: one more state than outcomes, and
/// each consecutive pair of states related by one tick with its outcome.
pub open spec fn is_tick_trace(states: Seq<Game>, outcomes: Seq<TickOutcome>) -> bool {
    &&& states.len() == outcomes.len() + 1
    &&& forall|i: int|
        0 <= i < outcomes.len() ==> Game::tick_transition(
            states[i],
            states[i + 1],
            #[trigger] outcomes[i],
        )
}

/// A tick that moved preserves the session invariant: this holds of the tick
/// relation itself, whichever implementation produced it.
pub proof fn lemma_moved_tick_preserves_wf(pre: Game, post: Game, outcome: TickOutcome)
    requires
        pre.wf(),
        Game::tick_transition(pre, post, outcome),
        outcome matches TickOutcome::Moved { .. },
    ensures
        post.wf(),
{
    let stepped = pre.snake.head().spec_step_in(pre.snake.direction);
    lemma_step_adjacent(pre.snake.head(), pre.snake.direction);
    if ate_in(outcome) {
        assert forall|i: int| 0 <= i < post.snake.segments@.len() - 1 implies adjacent(
            #[trigger] post.snake.segments@[i],
            post.snake.segments@[i + 1],
        ) by {
            if i < pre.snake.segments@.len() - 1 {
                assert(adjacent(pre.snake.segments@[i], pre.snake.segments@[i + 1]));
            }
        }
        assert forall|i: int|
            0 <= i < post.snake.segments@.len() implies #[trigger] post.snake.segments@[i].in_bounds(
            post.screen_dimensions,
        ) by {
            if i < pre.snake.segments@.len() {
                assert(pre.snake.segments@[i].in_bounds(pre.screen_dimensions));
            }
        }
    } else {
        let grown = pre.snake.segments@.push(stepped);
        assert forall|i: int| 0 <= i < post.snake.segments@.len() - 1 implies adjacent(
            #[trigger] post.snake.segments@[i],
            post.snake.segments@[i + 1],
        ) by {
            if i + 1 < pre.snake.segments@.len() - 1 {
                assert(adjacent(pre.snake.segments@[i + 1], pre.snake.segments@[i + 2]));
            }
            assert(post.snake.segments@[i] == grown[i + 1]);
            assert(post.snake.segments@[i + 1] == grown[i + 2]);
        }
        assert forall|i: int|
            0 <= i < post.snake.segments@.len() implies #[trigger] post.snake.segments@[i].in_bounds(
            post.screen_dimensions,
        ) by {
            if i + 1 < pre.snake.segments@.len() {
                assert(pre.snake.segments@[i + 1].in_bounds(pre.screen_dimensions));
            }
            assert(post.snake.segments@[i] == grown[i + 1]);
        }
        assert(!occupies(post.snake.segments@, post.food_location)) by {
            assert forall|i: int|
                0 <= i < post.snake.segments@.len() implies #[trigger] post.snake.segments@[i]
                != post.food_location by {
                if i + 1 < pre.snake.segments@.len() {
                    assert(!occupies(pre.snake.segments@, pre.food_location));
                    assert(pre.snake.segments@[i + 1] != pre.food_location);
                }
                assert(post.snake.segments@[i] == grown[i + 1]);
            }
        }
    }
}

/// Food is never on the snake, in every state of any run whose ticks all
/// moved: the session invariant — body a chain of on-board cells, food on the
/// board and off the body — holds along the whole trace.
pub proof fn lemma_trace_preserves_wf(states: Seq<Game>, outcomes: Seq<TickOutcome>)
    requires
        is_tick_trace(states, outcomes),
        states.len() >= 1,
        states[0].wf(),
        forall|i: int| 0 <= i < outcomes.len() ==> #[trigger] outcomes[i] matches TickOutcome::Moved { .. },
    ensures
        forall|i: int| 0 <= i < states.len() ==> (#[trigger] states[i]).wf(),
    decreases outcomes.len(),
{
    if outcomes.len() > 0 {
        let shorter_states = states.drop_last();
        let shorter_outcomes = outcomes.drop_last();
        assert(is_tick_trace(shorter_states, shorter_outcomes)) by {
            assert forall|i: int| 0 <= i < shorter_outcomes.len() implies Game::tick_transition(
                shorter_states[i],
                shorter_states[i + 1],
                #[trigger] shorter_outcomes[i],
            ) by {
                assert(Game::tick_transition(states[i], states[i + 1], outcomes[i]));
            }
        }
        lemma_trace_preserves_wf(shorter_states, shorter_outcomes);
        assert forall|i: int| 0 <= i < states.len() implies (#[trigger] states[i]).wf() by {
            if i < states.len() - 1 {
                assert(shorter_states[i].wf());
            } else {
                let last = outcomes.len() - 1;
                assert(shorter_states[last].wf());
                assert(outcomes[last] matches TickOutcome::Moved { .. });
                lemma_moved_tick_preserves_wf(states[last], states[last + 1], outcomes[last]);
            }
        }
    }
}

/// Over any run of ticks, the snake's length changes exactly with eating:
/// a non-eating tick keeps it, an eating tick adds exactly one, so the final
/// length is the starting length plus the number of ticks that ate.
pub proof fn lemma_trace_length(states: Seq<Game>, outcomes: Seq<TickOutcome>)
    requires
        is_tick_trace(states, outcomes),
    ensures
        states.last().snake.segments@.len() == states[0].snake.segments@.len() + eaten_count(
            outcomes,
        ),
    decreases outcomes.len(),
{
    if outcomes.len() > 0 {
        let shorter_states = states.drop_last();
        let shorter_outcomes = outcomes.drop_last();
        assert(is_tick_trace(shorter_states, shorter_outcomes)) by {
            assert forall|i: int| 0 <= i < shorter_outcomes.len() implies Game::tick_transition(
                shorter_states[i],
                shorter_states[i + 1],
                #[trigger] shorter_outcomes[i],
            ) by {
                assert(Game::tick_transition(states[i], states[i + 1], outcomes[i]));
            }
        }
        lemma_trace_length(shorter_states, shorter_outcomes);
        let last = outcomes.len() - 1;
        assert(Game::tick_transition(states[last], states[last + 1], outcomes[last]));
        assert(states.last() == states[last + 1]);
        assert(shorter_states.last() == states[last]);
        assert(shorter_states[0] == states[0]);
    }
}

} // verus!
