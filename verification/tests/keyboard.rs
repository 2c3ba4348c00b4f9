use evdev::Key;
use shlog::keyboard::{
    self, find_keyboards, Fetch, InputEvent, KeyboardInput, NoKeyboard, ReadError, EV_KEY,
};
use shlog::login::LoginEvent;

fn key(code: u16, value: i32) -> InputEvent {
    InputEvent { event_type: EV_KEY, code, value }
}

/// What some login events type; other events are shown by a letter in brackets.
fn typed(events: &[LoginEvent]) -> String {
    let mut text = String::new();
    for event in events {
        match event {
            LoginEvent::Char(c) => text.push(*c),
            LoginEvent::Submit => text.push_str("<S>"),
            LoginEvent::Delete => text.push_str("<D>"),
            LoginEvent::PreviousField => text.push_str("<P>"),
            other => panic!("unexpected event: {:?}", other),
        }
    }
    text
}

fn read(input: &mut KeyboardInput, events: Vec<InputEvent>) -> String {
    typed(&input.read_events(&vec![Fetch::Events(events)]).unwrap())
}

fn released() -> KeyboardInput {
    KeyboardInput::new(&vec![])
}

#[test]
fn key_codes_are_those_of_the_kernel() {
    assert_eq!(EV_KEY, evdev::EventType::KEY.0);
    for (code, name) in [
        (keyboard::KEY_ESC, Key::KEY_ESC),
        (keyboard::KEY_1, Key::KEY_1),
        (keyboard::KEY_2, Key::KEY_2),
        (keyboard::KEY_3, Key::KEY_3),
        (keyboard::KEY_4, Key::KEY_4),
        (keyboard::KEY_5, Key::KEY_5),
        (keyboard::KEY_6, Key::KEY_6),
        (keyboard::KEY_7, Key::KEY_7),
        (keyboard::KEY_8, Key::KEY_8),
        (keyboard::KEY_9, Key::KEY_9),
        (keyboard::KEY_0, Key::KEY_0),
        (keyboard::KEY_MINUS, Key::KEY_MINUS),
        (keyboard::KEY_EQUAL, Key::KEY_EQUAL),
        (keyboard::KEY_BACKSPACE, Key::KEY_BACKSPACE),
        (keyboard::KEY_Q, Key::KEY_Q),
        (keyboard::KEY_W, Key::KEY_W),
        (keyboard::KEY_E, Key::KEY_E),
        (keyboard::KEY_R, Key::KEY_R),
        (keyboard::KEY_T, Key::KEY_T),
        (keyboard::KEY_Y, Key::KEY_Y),
        (keyboard::KEY_U, Key::KEY_U),
        (keyboard::KEY_I, Key::KEY_I),
        (keyboard::KEY_O, Key::KEY_O),
        (keyboard::KEY_P, Key::KEY_P),
        (keyboard::KEY_LEFTBRACE, Key::KEY_LEFTBRACE),
        (keyboard::KEY_RIGHTBRACE, Key::KEY_RIGHTBRACE),
        (keyboard::KEY_ENTER, Key::KEY_ENTER),
        (keyboard::KEY_A, Key::KEY_A),
        (keyboard::KEY_S, Key::KEY_S),
        (keyboard::KEY_D, Key::KEY_D),
        (keyboard::KEY_F, Key::KEY_F),
        (keyboard::KEY_G, Key::KEY_G),
        (keyboard::KEY_H, Key::KEY_H),
        (keyboard::KEY_J, Key::KEY_J),
        (keyboard::KEY_K, Key::KEY_K),
        (keyboard::KEY_L, Key::KEY_L),
        (keyboard::KEY_SEMICOLON, Key::KEY_SEMICOLON),
        (keyboard::KEY_APOSTROPHE, Key::KEY_APOSTROPHE),
        (keyboard::KEY_GRAVE, Key::KEY_GRAVE),
        (keyboard::KEY_LEFTSHIFT, Key::KEY_LEFTSHIFT),
        (keyboard::KEY_BACKSLASH, Key::KEY_BACKSLASH),
        (keyboard::KEY_Z, Key::KEY_Z),
        (keyboard::KEY_X, Key::KEY_X),
        (keyboard::KEY_C, Key::KEY_C),
        (keyboard::KEY_V, Key::KEY_V),
        (keyboard::KEY_B, Key::KEY_B),
        (keyboard::KEY_N, Key::KEY_N),
        (keyboard::KEY_M, Key::KEY_M),
        (keyboard::KEY_COMMA, Key::KEY_COMMA),
        (keyboard::KEY_DOT, Key::KEY_DOT),
        (keyboard::KEY_SLASH, Key::KEY_SLASH),
        (keyboard::KEY_RIGHTSHIFT, Key::KEY_RIGHTSHIFT),
        (keyboard::KEY_KPASTERISK, Key::KEY_KPASTERISK),
        (keyboard::KEY_SPACE, Key::KEY_SPACE),
        (keyboard::KEY_CAPSLOCK, Key::KEY_CAPSLOCK),
        (keyboard::KEY_KP7, Key::KEY_KP7),
        (keyboard::KEY_KP8, Key::KEY_KP8),
        (keyboard::KEY_KP9, Key::KEY_KP9),
        (keyboard::KEY_KPMINUS, Key::KEY_KPMINUS),
        (keyboard::KEY_KP4, Key::KEY_KP4),
        (keyboard::KEY_KP5, Key::KEY_KP5),
        (keyboard::KEY_KP6, Key::KEY_KP6),
        (keyboard::KEY_KPPLUS, Key::KEY_KPPLUS),
        (keyboard::KEY_KP1, Key::KEY_KP1),
        (keyboard::KEY_KP2, Key::KEY_KP2),
        (keyboard::KEY_KP3, Key::KEY_KP3),
        (keyboard::KEY_KP0, Key::KEY_KP0),
        (keyboard::KEY_KPDOT, Key::KEY_KPDOT),
        (keyboard::KEY_KPENTER, Key::KEY_KPENTER),
        (keyboard::KEY_KPSLASH, Key::KEY_KPSLASH),
        (keyboard::KEY_UP, Key::KEY_UP),
    ] {
        assert_eq!(code, name.code());
    }
}

#[test]
fn letters_follow_shift_and_caps_lock() {
    let code = Key::KEY_G.code();
    assert_eq!(KeyboardInput::map_printable_key(code, false, false), Some('g'));
    assert_eq!(KeyboardInput::map_printable_key(code, true, false), Some('G'));
    assert_eq!(KeyboardInput::map_printable_key(code, false, true), Some('G'));
    assert_eq!(KeyboardInput::map_printable_key(code, true, true), Some('g'));
    assert_eq!(KeyboardInput::map_letter_key(code), Some('g'));
    assert_eq!(KeyboardInput::map_letter_key(Key::KEY_1.code()), None);
}

#[test]
fn every_letter_has_its_key() {
    let keys = [
        Key::KEY_A, Key::KEY_B, Key::KEY_C, Key::KEY_D, Key::KEY_E, Key::KEY_F, Key::KEY_G,
        Key::KEY_H, Key::KEY_I, Key::KEY_J, Key::KEY_K, Key::KEY_L, Key::KEY_M, Key::KEY_N,
        Key::KEY_O, Key::KEY_P, Key::KEY_Q, Key::KEY_R, Key::KEY_S, Key::KEY_T, Key::KEY_U,
        Key::KEY_V, Key::KEY_W, Key::KEY_X, Key::KEY_Y, Key::KEY_Z,
    ];
    for (key, letter) in keys.iter().zip('a'..='z') {
        assert_eq!(KeyboardInput::map_letter_key(key.code()), Some(letter));
    }
}

#[test]
fn signs_follow_shift_and_not_caps_lock() {
    let keys = [
        (Key::KEY_1, '1', '!'),
        (Key::KEY_2, '2', '@'),
        (Key::KEY_3, '3', '#'),
        (Key::KEY_4, '4', '$'),
        (Key::KEY_5, '5', '%'),
        (Key::KEY_6, '6', '^'),
        (Key::KEY_7, '7', '&'),
        (Key::KEY_8, '8', '*'),
        (Key::KEY_9, '9', '('),
        (Key::KEY_0, '0', ')'),
        (Key::KEY_MINUS, '-', '_'),
        (Key::KEY_EQUAL, '=', '+'),
        (Key::KEY_LEFTBRACE, '[', '{'),
        (Key::KEY_RIGHTBRACE, ']', '}'),
        (Key::KEY_BACKSLASH, '\\', '|'),
        (Key::KEY_SEMICOLON, ';', ':'),
        (Key::KEY_APOSTROPHE, '\'', '"'),
        (Key::KEY_GRAVE, '`', '~'),
        (Key::KEY_COMMA, ',', '<'),
        (Key::KEY_DOT, '.', '>'),
        (Key::KEY_SLASH, '/', '?'),
    ];
    for (key, plain, shifted) in keys {
        for caps_lock in [false, true] {
            let code = key.code();
            assert_eq!(KeyboardInput::map_printable_key(code, false, caps_lock), Some(plain));
            assert_eq!(KeyboardInput::map_printable_key(code, true, caps_lock), Some(shifted));
        }
    }
}

#[test]
fn the_keypad_ignores_the_modifiers() {
    let keys = [
        (Key::KEY_KP0, '0'),
        (Key::KEY_KP1, '1'),
        (Key::KEY_KP2, '2'),
        (Key::KEY_KP3, '3'),
        (Key::KEY_KP4, '4'),
        (Key::KEY_KP5, '5'),
        (Key::KEY_KP6, '6'),
        (Key::KEY_KP7, '7'),
        (Key::KEY_KP8, '8'),
        (Key::KEY_KP9, '9'),
        (Key::KEY_KPMINUS, '-'),
        (Key::KEY_KPPLUS, '+'),
        (Key::KEY_KPASTERISK, '*'),
        (Key::KEY_KPSLASH, '/'),
        (Key::KEY_KPDOT, '.'),
    ];
    for (key, c) in keys {
        for (shift, caps_lock) in [(false, false), (true, false), (false, true), (true, true)] {
            assert_eq!(KeyboardInput::map_printable_key(key.code(), shift, caps_lock), Some(c));
        }
    }
}

#[test]
fn control_keys_give_their_events() {
    let events: Vec<LoginEvent> = [
        Key::KEY_ENTER,
        Key::KEY_KPENTER,
        Key::KEY_BACKSPACE,
        Key::KEY_UP,
        Key::KEY_ESC,
        Key::KEY_SPACE,
    ]
    .iter()
    .map(|key| KeyboardInput::map_key(key.code(), true, true).unwrap())
    .collect();
    assert_eq!(typed(&events), "<S><S><D><P><P> ");
    assert!(KeyboardInput::map_key(Key::KEY_TAB.code(), false, false).is_none());
    assert!(KeyboardInput::map_key(Key::KEY_F1.code(), false, false).is_none());
    assert!(KeyboardInput::map_key(Key::KEY_LEFTSHIFT.code(), false, false).is_none());
}

#[test]
fn shift_counts_while_it_is_held() {
    let mut input = released();
    let shift = Key::KEY_LEFTSHIFT.code();
    let a = Key::KEY_A.code();
    let events = vec![key(a, 1), key(a, 0), key(shift, 1), key(a, 1), key(shift, 2), key(a, 2)];
    assert_eq!(read(&mut input, events), "aAA");
    assert_eq!(read(&mut input, vec![key(a, 1)]), "A");
    assert_eq!(read(&mut input, vec![key(shift, 0), key(a, 1)]), "a");
}

#[test]
fn caps_lock_toggles_on_a_press() {
    let mut input = released();
    let caps = Key::KEY_CAPSLOCK.code();
    let a = Key::KEY_A.code();
    assert_eq!(read(&mut input, vec![key(caps, 1), key(caps, 2), key(caps, 0), key(a, 1)]), "A");
    assert_eq!(read(&mut input, vec![key(caps, 1), key(caps, 0), key(a, 1)]), "a");
}

#[test]
fn caps_lock_starts_as_some_light_says() {
    let a = Key::KEY_A.code();
    let mut input = KeyboardInput::new(&vec![false, true, false]);
    assert_eq!(read(&mut input, vec![key(a, 1)]), "A");
    let mut input = KeyboardInput::new(&vec![false, false]);
    assert_eq!(read(&mut input, vec![key(a, 1)]), "a");
}

#[test]
fn releases_and_other_events_type_nothing() {
    let mut input = released();
    let a = Key::KEY_A.code();
    let other = InputEvent { event_type: 4, code: a, value: 1 };
    assert_eq!(read(&mut input, vec![key(a, 0), other]), "");
}

#[test]
fn keyboards_are_read_in_order() {
    let mut input = released();
    let fetched = vec![
        Fetch::Events(vec![key(Key::KEY_A.code(), 1), key(Key::KEY_LEFTSHIFT.code(), 1)]),
        Fetch::WouldBlock,
        Fetch::Disappeared,
        Fetch::Events(vec![key(Key::KEY_B.code(), 1)]),
    ];
    assert_eq!(typed(&input.read_events(&fetched).unwrap()), "aB");
}

#[test]
fn a_failed_keyboard_ends_the_reading() {
    let mut input = released();
    let fetched = vec![
        Fetch::Events(vec![key(Key::KEY_LEFTSHIFT.code(), 1), key(Key::KEY_A.code(), 1)]),
        Fetch::Failed,
        Fetch::Events(vec![key(Key::KEY_LEFTSHIFT.code(), 0)]),
    ];
    assert_eq!(input.read_events(&fetched).unwrap_err(), ReadError { keyboard: 1 });
    assert_eq!(read(&mut input, vec![key(Key::KEY_B.code(), 1)]), "B");
}

#[test]
fn keyboards_are_the_devices_that_can_type() {
    let full = vec![
        Key::KEY_ENTER.code(),
        Key::KEY_A.code(),
        Key::KEY_BACKSPACE.code(),
        Key::KEY_Z.code(),
    ];
    let mut without_z = full.clone();
    without_z.pop();
    let devices = vec![None, Some(full.clone()), Some(without_z), Some(vec![]), Some(full)];
    assert_eq!(find_keyboards(&devices), Ok(vec![1, 4]));
}

#[test]
fn no_keyboard_is_an_error() {
    assert_eq!(find_keyboards(&vec![]), Err(NoKeyboard));
    assert_eq!(find_keyboards(&vec![None, Some(vec![Key::BTN_LEFT.code()])]), Err(NoKeyboard));
}
