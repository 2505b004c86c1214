//! The input channel: raw key presses become directional intents. Identical
//! repeats of the heading already forwarded are suppressed, the interrupt
//! combination terminates the channel, and every other key is ignored.

use vstd::prelude::*;
use crate::geometry::Direction;

verus! {

/// A key press as the terminal reports it, reduced to what the game reads:
/// the arrow keys, a plain character, or anything else.
#[derive(Clone, Copy, Debug, PartialEq, Eq, Structural)]
pub enum Key {
    Up,
    Down,
    Left,
    Right,
    Char(char),
    Other,
}

/// One key event: the key and whether the control modifier alone was held.
#[derive(Clone, Copy, Debug, PartialEq, Eq, Structural)]
pub struct KeyEvent {
    pub key: Key,
    pub ctrl: bool,
}

/// What the channel asks of the driver for one key event.
#[derive(Clone, Copy, Debug, PartialEq, Eq, Structural)]
pub enum InputAction {
    /// Forward this heading as the next direction intent.
    Emit(Direction),
    /// The interrupt combination arrived: stop the session.
    Terminate,
    /// Nothing to do.
    Ignore,
}

/// The channel's state: the heading last forwarded — identical repeats are
/// suppressed until a different one goes out — and whether the interrupt
/// combination has been seen.
#[derive(Clone, Copy, Debug, PartialEq, Eq, Structural)]
pub struct InputChannel {
    pub in_effect: Option<Direction>,
    pub terminated: bool,
}

/// The heading a key maps to: the arrow keys, or the letters w, a, s and d.
pub open spec fn key_direction(key: Key) -> Option<Direction> {
    match key {
        Key::Up => Some(Direction::Up),
        Key::Down => Some(Direction::Down),
        Key::Left => Some(Direction::Left),
        Key::Right => Some(Direction::Right),
        Key::Char(letter) => if letter == 'w' {
            Some(Direction::Up)
        } else if letter == 's' {
            Some(Direction::Down)
        } else if letter == 'a' {
            Some(Direction::Left)
        } else if letter == 'd' {
            Some(Direction::Right)
        } else {
            None
        },
        Key::Other => None,
    }
}

/// How the channel reacts to one key event: a terminated channel ignores
/// everything; control-c terminates; a directional key that differs from the
/// heading in effect is forwarded and remembered; all else is ignored.
pub open spec fn channel_step(pre: InputChannel, event: KeyEvent) -> (InputChannel, InputAction) {
    if pre.terminated {
        (pre, InputAction::Ignore)
    } else if pre.would_terminate(event) {
        (InputChannel { in_effect: pre.in_effect, terminated: true }, InputAction::Terminate)
    } else {
        match key_direction(event.key) {
            Some(direction) => if pre.in_effect == Some(direction) {
                (pre, InputAction::Ignore)
            } else {
                (
                    InputChannel { in_effect: Some(direction), terminated: pre.terminated },
                    InputAction::Emit(direction),
                )
            },
            None => (pre, InputAction::Ignore),
        }
    }
}

/// The channel run over a whole sequence of key events: the final state and
/// the directions forwarded, in order.
pub open spec fn channel_run(pre: InputChannel, events: Seq<KeyEvent>) -> (
    InputChannel,
    Seq<Direction>,
)
    decreases events.len(),
{
    if events.len() == 0 {
        (pre, Seq::empty())
    } else {
        let (mid, emitted) = channel_run(pre, events.drop_last());
        let (post, action) = channel_step(mid, events.last());
        match action {
            InputAction::Emit(direction) => (post, emitted.push(direction)),
            _ => (post, emitted),
        }
    }
}

impl InputChannel {
    /// Whether this event is the interrupt combination (control-c) and the
    /// channel still tracks input.
    pub open spec fn would_terminate(self, event: KeyEvent) -> bool {
        !self.terminated && event.ctrl && event.key == Key::Char('c')
    }

    /// A fresh channel: nothing forwarded yet, tracking input.
    pub fn new() -> (channel: InputChannel)
        ensures
            channel.in_effect is None,
            !channel.terminated,
    {
        InputChannel { in_effect: None, terminated: false }
    }

    /// Feeds one key event to the channel and returns what the driver should
    /// do with it, exactly as `channel_step` says.
    pub fn handle_key(&mut self, event: KeyEvent) -> (action: InputAction)
        ensures
            (*final(self), action) == channel_step(*old(self), event),
    {
        if self.terminated {
            return InputAction::Ignore;
        }
        if event.ctrl && event.key == Key::Char('c') {
            self.terminated = true;
            return InputAction::Terminate;
        }
        let mapped = match event.key {
            Key::Up => Some(Direction::Up),
            Key::Down => Some(Direction::Down),
            Key::Left => Some(Direction::Left),
            Key::Right => Some(Direction::Right),
            Key::Char(letter) => {
                if letter == 'w' {
                    Some(Direction::Up)
                } else if letter == 's' {
                    Some(Direction::Down)
                } else if letter == 'a' {
                    Some(Direction::Left)
                } else if letter == 'd' {
                    Some(Direction::Right)
                } else {
                    None
                }
            },
            Key::Other => None,
        };
        match mapped {
            Some(direction) => {
                let repeat = match self.in_effect {
                    Some(in_effect) => in_effect == direction,
                    None => false,
                };
                if repeat {
                    InputAction::Ignore
                } else {
                    self.in_effect = Some(direction);
                    InputAction::Emit(direction)
                }
            },
            None => InputAction::Ignore,
        }
    }
}

/// After any run, the heading in effect is the last one forwarded; a run that
/// forwarded nothing leaves it untouched.
pub proof fn lemma_channel_run_in_effect(pre: InputChannel, events: Seq<KeyEvent>)
    ensures
        channel_run(pre, events).1.len() > 0 ==> channel_run(pre, events).0.in_effect == Some(
            channel_run(pre, events).1.last(),
        ),
        channel_run(pre, events).1.len() == 0 ==> channel_run(pre, events).0.in_effect
            == pre.in_effect,
    decreases events.len(),
{
    if events.len() > 0 {
        lemma_channel_run_in_effect(pre, events.drop_last());
    }
}

/// The channel never forwards the same heading twice in a row: in the intents
/// emitted over any sequence of key events — however rapid the repeats —
/// consecutive intents always differ.
pub proof fn lemma_no_consecutive_repeats(pre: InputChannel, events: Seq<KeyEvent>)
    ensures
        forall|i: int|
            0 <= i < channel_run(pre, events).1.len() - 1 ==> #[trigger] channel_run(
                pre,
                events,
            ).1[i] != channel_run(pre, events).1[i + 1],
    decreases events.len(),
{
    if events.len() > 0 {
        let (mid, emitted) = channel_run(pre, events.drop_last());
        lemma_no_consecutive_repeats(pre, events.drop_last());
        lemma_channel_run_in_effect(pre, events.drop_last());
        let (post, action) = channel_step(mid, events.last());
        if let InputAction::Emit(direction) = action {
            let all = channel_run(pre, events).1;
            assert(all == emitted.push(direction));
            assert forall|i: int| 0 <= i < all.len() - 1 implies #[trigger] all[i] != all[i + 1] by {
                if i < emitted.len() - 1 {
                    assert(emitted[i] != emitted[i + 1]);
                } else {
                    assert(mid.in_effect != Some(direction));
                }
            }
        }
    }
}

} // verus!
