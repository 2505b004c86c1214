use snake::geometry::Direction;
use snake::input::{InputAction, InputChannel, Key, KeyEvent};

fn plain(key: Key) -> KeyEvent {
    KeyEvent { key, ctrl: false }
}

#[test]
fn arrow_keys_and_letters_map_to_headings() {
    for (key, expected) in [
        (Key::Up, Direction::Up),
        (Key::Down, Direction::Down),
        (Key::Left, Direction::Left),
        (Key::Right, Direction::Right),
        (Key::Char('w'), Direction::Up),
        (Key::Char('s'), Direction::Down),
        (Key::Char('a'), Direction::Left),
        (Key::Char('d'), Direction::Right),
    ] {
        let mut channel = InputChannel::new();
        assert_eq!(channel.handle_key(plain(key)), InputAction::Emit(expected));
    }
}

#[test]
fn unmapped_keys_are_ignored() {
    let mut channel = InputChannel::new();
    assert_eq!(channel.handle_key(plain(Key::Char('x'))), InputAction::Ignore);
    assert_eq!(channel.handle_key(plain(Key::Other)), InputAction::Ignore);
    // A plain c is not the interrupt combination; it maps to nothing.
    assert_eq!(channel.handle_key(plain(Key::Char('c'))), InputAction::Ignore);
    // The channel state is untouched: a direction still goes through.
    assert_eq!(
        channel.handle_key(plain(Key::Char('w'))),
        InputAction::Emit(Direction::Up)
    );
}

#[test]
fn identical_repeats_are_suppressed() {
    let mut channel = InputChannel::new();
    assert_eq!(
        channel.handle_key(plain(Key::Char('w'))),
        InputAction::Emit(Direction::Up)
    );
    // The same heading again, even through the other key for it: suppressed.
    assert_eq!(channel.handle_key(plain(Key::Char('w'))), InputAction::Ignore);
    assert_eq!(channel.handle_key(plain(Key::Up)), InputAction::Ignore);
    // A different heading goes through, after which the first one may again.
    assert_eq!(
        channel.handle_key(plain(Key::Char('s'))),
        InputAction::Emit(Direction::Down)
    );
    assert_eq!(
        channel.handle_key(plain(Key::Up)),
        InputAction::Emit(Direction::Up)
    );
}

#[test]
fn queued_repeats_collapse_to_two_intents() {
    // Up, Up, Down pressed in a burst: the channel forwards Up once and then
    // Down, so the driver sees at most one intent per frame in order.
    let mut channel = InputChannel::new();
    let actions = [
        channel.handle_key(plain(Key::Up)),
        channel.handle_key(plain(Key::Up)),
        channel.handle_key(plain(Key::Down)),
    ];
    assert_eq!(
        actions,
        [
            InputAction::Emit(Direction::Up),
            InputAction::Ignore,
            InputAction::Emit(Direction::Down),
        ]
    );
}

#[test]
fn control_c_terminates_and_silences_the_channel() {
    let mut channel = InputChannel::new();
    let interrupt = KeyEvent { key: Key::Char('c'), ctrl: true };
    assert_eq!(channel.handle_key(interrupt), InputAction::Terminate);
    // Once terminated, nothing more is forwarded.
    assert_eq!(channel.handle_key(plain(Key::Char('w'))), InputAction::Ignore);
    assert_eq!(channel.handle_key(interrupt), InputAction::Ignore);
}

#[test]
fn control_with_a_direction_key_still_maps() {
    let mut channel = InputChannel::new();
    assert_eq!(
        channel.handle_key(KeyEvent { key: Key::Char('w'), ctrl: true }),
        InputAction::Emit(Direction::Up)
    );
}
