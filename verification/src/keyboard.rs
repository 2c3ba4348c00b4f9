//! Keyboard input: from the kernel's key codes to login events.

use crate::login::LoginEvent;
use vstd::prelude::*;

verus! {

/// What the names of the device nodes of input devices begin with.
pub const EVENT_PREFIX: &'static str = "event";

/// The event type of key presses and releases; other types say nothing of keys.
pub const EV_KEY: u16 = 1;

// The kernel's codes of the keys that the greeter knows.
pub const KEY_ESC: u16 = 1;
pub const KEY_1: u16 = 2;
pub const KEY_2: u16 = 3;
pub const KEY_3: u16 = 4;
pub const KEY_4: u16 = 5;
pub const KEY_5: u16 = 6;
pub const KEY_6: u16 = 7;
pub const KEY_7: u16 = 8;
pub const KEY_8: u16 = 9;
pub const KEY_9: u16 = 10;
pub const KEY_0: u16 = 11;
pub const KEY_MINUS: u16 = 12;
pub const KEY_EQUAL: u16 = 13;
pub const KEY_BACKSPACE: u16 = 14;
pub const KEY_Q: u16 = 16;
pub const KEY_W: u16 = 17;
pub const KEY_E: u16 = 18;
pub const KEY_R: u16 = 19;
pub const KEY_T: u16 = 20;
pub const KEY_Y: u16 = 21;
pub const KEY_U: u16 = 22;
pub const KEY_I: u16 = 23;
pub const KEY_O: u16 = 24;
pub const KEY_P: u16 = 25;
pub const KEY_LEFTBRACE: u16 = 26;
pub const KEY_RIGHTBRACE: u16 = 27;
pub const KEY_ENTER: u16 = 28;
pub const KEY_A: u16 = 30;
pub const KEY_S: u16 = 31;
pub const KEY_D: u16 = 32;
pub const KEY_F: u16 = 33;
pub const KEY_G: u16 = 34;
pub const KEY_H: u16 = 35;
pub const KEY_J: u16 = 36;
pub const KEY_K: u16 = 37;
pub const KEY_L: u16 = 38;
pub const KEY_SEMICOLON: u16 = 39;
pub const KEY_APOSTROPHE: u16 = 40;
pub const KEY_GRAVE: u16 = 41;
pub const KEY_LEFTSHIFT: u16 = 42;
pub const KEY_BACKSLASH: u16 = 43;
pub const KEY_Z: u16 = 44;
pub const KEY_X: u16 = 45;
pub const KEY_C: u16 = 46;
pub const KEY_V: u16 = 47;
pub const KEY_B: u16 = 48;
pub const KEY_N: u16 = 49;
pub const KEY_M: u16 = 50;
pub const KEY_COMMA: u16 = 51;
pub const KEY_DOT: u16 = 52;
pub const KEY_SLASH: u16 = 53;
pub const KEY_RIGHTSHIFT: u16 = 54;
pub const KEY_KPASTERISK: u16 = 55;
pub const KEY_SPACE: u16 = 57;
pub const KEY_CAPSLOCK: u16 = 58;
pub const KEY_KP7: u16 = 71;
pub const KEY_KP8: u16 = 72;
pub const KEY_KP9: u16 = 73;
pub const KEY_KPMINUS: u16 = 74;
pub const KEY_KP4: u16 = 75;
pub const KEY_KP5: u16 = 76;
pub const KEY_KP6: u16 = 77;
pub const KEY_KPPLUS: u16 = 78;
pub const KEY_KP1: u16 = 79;
pub const KEY_KP2: u16 = 80;
pub const KEY_KP3: u16 = 81;
pub const KEY_KP0: u16 = 82;
pub const KEY_KPDOT: u16 = 83;
pub const KEY_KPENTER: u16 = 96;
pub const KEY_KPSLASH: u16 = 98;
pub const KEY_UP: u16 = 103;

/// An event as an input device reports it. The value is 0 for a release, 1 for a press and 2
/// for a repetition.
#[derive(Clone, Copy, Debug)]
pub struct InputEvent {
    pub event_type: u16,
    pub code: u16,
    pub value: i32,
}

/// What came of asking one keyboard for its pending events.
#[derive(Debug)]
pub enum Fetch {
    /// The events that were pending.
    Events(Vec<InputEvent>),
    /// Nothing was pending.
    WouldBlock,
    /// The device is gone.
    Disappeared,
    /// Any other error.
    Failed,
}

/// The shift and caps lock keys, as far as the greeter has followed them.
pub struct Modifiers {
    pub shift: bool,
    pub caps_lock: bool,
}

pub struct KeyboardInput {
    shift: bool,
    caps_lock: bool,
}

/// Reading stopped at this keyboard, counted from zero.
#[derive(Clone, Copy, Debug, PartialEq, Eq, Structural)]
pub struct ReadError {
    pub keyboard: usize,
}

/// No device can type.
#[derive(Clone, Copy, Debug, PartialEq, Eq, Structural)]
pub struct NoKeyboard;

impl View for KeyboardInput {
    type V = Modifiers;

    closed spec fn view(&self) -> Modifiers {
        Modifiers { shift: self.shift, caps_lock: self.caps_lock }
    }
}

/// The lower-case letter on a key, by the three rows of a keyboard.
pub open spec fn letter_on(code: u16) -> Option<char> {
    if KEY_Q <= code <= KEY_P {
        Some("qwertyuiop"@[code - KEY_Q])
    } else if KEY_A <= code <= KEY_L {
        Some("asdfghjkl"@[code - KEY_A])
    } else if KEY_Z <= code <= KEY_M {
        Some("zxcvbnm"@[code - KEY_Z])
    } else {
        None
    }
}

/// The upper-case form of a lower-case letter.
pub open spec fn upper(c: char) -> char {
    (c as u32 - 32) as char
}

/// The digit or sign on a key of the main block, without and with shift.
pub open spec fn sign_on(code: u16) -> Option<(char, char)> {
    if KEY_1 <= code <= KEY_EQUAL {
        Some(("1234567890-="@[code - KEY_1], "!@#$%^&*()_+"@[code - KEY_1]))
    } else if KEY_LEFTBRACE <= code <= KEY_RIGHTBRACE {
        Some(("[]"@[code - KEY_LEFTBRACE], "{}"@[code - KEY_LEFTBRACE]))
    } else if KEY_SEMICOLON <= code <= KEY_GRAVE {
        Some((";'`"@[code - KEY_SEMICOLON], ":\"~"@[code - KEY_SEMICOLON]))
    } else if code == KEY_BACKSLASH {
        Some(('\\', '|'))
    } else if KEY_COMMA <= code <= KEY_SLASH {
        Some((",./"@[code - KEY_COMMA], "<>?"@[code - KEY_COMMA]))
    } else {
        None
    }
}

/// The digit or sign on a key of the keypad.
pub open spec fn keypad_sign_on(code: u16) -> Option<char> {
    if KEY_KP7 <= code <= KEY_KPDOT {
        Some("789-456+1230."@[code - KEY_KP7])
    } else if code == KEY_KPASTERISK {
        Some('*')
    } else if code == KEY_KPSLASH {
        Some('/')
    } else {
        None
    }
}

impl Modifiers {
    /// The modifiers after a key was pressed, repeated or released.
    pub open spec fn on(self, code: u16, value: i32) -> Modifiers {
        if code == KEY_LEFTSHIFT || code == KEY_RIGHTSHIFT {
            Modifiers { shift: value != 0, ..self }
        } else if code == KEY_CAPSLOCK && value == 1 {
            Modifiers { caps_lock: !self.caps_lock, ..self }
        } else {
            self
        }
    }

    /// The character that a key types.
    pub open spec fn printable(self, code: u16) -> Option<char> {
        if let Some(c) = letter_on(code) {
            Some(
                if self.shift != self.caps_lock {
                    upper(c)
                } else {
                    c
                },
            )
        } else if let Some((plain, shifted)) = sign_on(code) {
            Some(
                if self.shift {
                    shifted
                } else {
                    plain
                },
            )
        } else {
            keypad_sign_on(code)
        }
    }

    /// The login event that a key gives.
    pub open spec fn login_event(self, code: u16) -> Option<LoginEvent> {
        if code == KEY_ENTER || code == KEY_KPENTER {
            Some(LoginEvent::Submit)
        } else if code == KEY_BACKSPACE {
            Some(LoginEvent::Delete)
        } else if code == KEY_UP || code == KEY_ESC {
            Some(LoginEvent::PreviousField)
        } else if code == KEY_SPACE {
            Some(LoginEvent::Char(' '))
        } else {
            match self.printable(code) {
                Some(c) => Some(LoginEvent::Char(c)),
                None => None,
            }
        }
    }
}

/// What is known and has been produced so far while events are decoded.
pub struct Decoded {
    pub modifiers: Modifiers,
    pub events: Seq<LoginEvent>,
}

impl Decoded {
    /// One more event: modifiers follow every key event, and each key gives its login event
    /// when it is pressed or repeated, not when it is released.
    pub open spec fn after(self, ev: InputEvent) -> Decoded {
        if ev.event_type != EV_KEY {
            self
        } else {
            let modifiers = self.modifiers.on(ev.code, ev.value);
            let events = match modifiers.login_event(ev.code) {
                Some(event) => if ev.value == 0 {
                    self.events
                } else {
                    self.events.push(event)
                },
                None => self.events,
            };
            Decoded { modifiers, events }
        }
    }

    /// The events of one keyboard, in order.
    pub open spec fn after_all(self, events: Seq<InputEvent>) -> Decoded
        decreases events.len(),
    {
        if events.len() == 0 {
            self
        } else {
            self.after_all(events.drop_last()).after(events.last())
        }
    }

    /// The keyboards, in order; one without events adds nothing.
    pub open spec fn after_fetched(self, fetched: Seq<Fetch>) -> Decoded
        decreases fetched.len(),
    {
        if fetched.len() == 0 {
            self
        } else {
            let before = self.after_fetched(fetched.drop_last());
            match fetched.last() {
                Fetch::Events(events) => before.after_all(events@),
                _ => before,
            }
        }
    }
}

impl Modifiers {
    /// Where decoding starts.
    pub open spec fn start(self) -> Decoded {
        Decoded { modifiers: self, events: Seq::empty() }
    }
}

/// A device counts as a keyboard when it has the first and the last letter, enter and
/// backspace.
pub open spec fn can_type(keys: Seq<u16>) -> bool {
    keys.contains(KEY_A) && keys.contains(KEY_Z) && keys.contains(KEY_ENTER) && keys.contains(
        KEY_BACKSPACE,
    )
}

/// The device could be opened, names its keys, and has those of a keyboard.
pub open spec fn is_keyboard(device: Option<Vec<u16>>) -> bool {
    device matches Some(keys) && can_type(keys@)
}

impl KeyboardInput {
    /// Starts with the keys released, and with caps lock on if the light of some keyboard says
    /// so.
    pub fn new(caps_lock_leds: &Vec<bool>) -> (input: Self)
        ensures
            input@ == (Modifiers { shift: false, caps_lock: caps_lock_leds@.contains(true) }),
    {
        let mut caps_lock = false;
        for i in 0..caps_lock_leds.len()
            invariant
                caps_lock == caps_lock_leds@.take(i as int).contains(true),
        {
            let ghost before = caps_lock_leds@.take(i as int);
            let ghost now = caps_lock_leds@.take(i + 1);
            assert(now =~= before.push(caps_lock_leds@[i as int]));
            if caps_lock_leds[i] {
                caps_lock = true;
                assert(now[i as int]);
            }
            proof {
                if before.contains(true) {
                    let k = choose|k: int| 0 <= k < before.len() && before[k];
                    assert(now[k]);
                }
            }
        }
        assert(caps_lock_leds@.take(caps_lock_leds@.len() as int) =~= caps_lock_leds@);
        Self { shift: false, caps_lock }
    }

    /// Decodes what the keyboards had pending, in their order. A keyboard with nothing pending
    /// and one that is gone are passed over. Any other error ends the reading: the keyboards
    /// before it have been followed, but what was typed on them is dropped.
    pub fn read_events(&mut self, fetched: &Vec<Fetch>) -> (result: Result<
        Vec<LoginEvent>,
        ReadError,
    >)
        ensures
            match result {
                Ok(events) => {
                    &&& forall|i: int| 0 <= i < fetched@.len() ==> !(fetched@[i] is Failed)
                    &&& (Decoded { modifiers: final(self)@, events: events@ })
                        == old(self)@.start().after_fetched(fetched@)
                },
                Err(error) => {
                    &&& error.keyboard < fetched@.len()
                    &&& fetched@[error.keyboard as int] is Failed
                    &&& forall|i: int| 0 <= i < error.keyboard ==> !(fetched@[i] is Failed)
                    &&& final(self)@ == old(self)@.start().after_fetched(
                        fetched@.take(error.keyboard as int),
                    ).modifiers
                },
            },
    {
        let mut login_events: Vec<LoginEvent> = Vec::new();
        let ghost start = self@.start();
        for idx in 0..fetched.len()
            invariant
                start == old(self)@.start(),
                forall|i: int| 0 <= i < idx ==> !(fetched@[i] is Failed),
                (Decoded { modifiers: self@, events: login_events@ }) == start.after_fetched(
                    fetched@.take(idx as int),
                ),
        {
            assert(fetched@.take(idx + 1).drop_last() =~= fetched@.take(idx as int));
            match &fetched[idx] {
                Fetch::Events(events) => {
                    self.decode(events, &mut login_events);
                },
                Fetch::WouldBlock => {},
                Fetch::Disappeared => {},
                Fetch::Failed => {
                    return Err(ReadError { keyboard: idx });
                },
            }
        }
        assert(fetched@.take(fetched@.len() as int) =~= fetched@);
        Ok(login_events)
    }

    /// Decodes the events of one keyboard, and appends what they give.
    fn decode(&mut self, events: &Vec<InputEvent>, login_events: &mut Vec<LoginEvent>)
        ensures
            (Decoded { modifiers: final(self)@, events: final(login_events)@ }) == (Decoded {
                modifiers: old(self)@,
                events: old(login_events)@,
            }).after_all(events@),
    {
        let ghost before = Decoded { modifiers: self@, events: login_events@ };
        for i in 0..events.len()
            invariant
                before == (Decoded { modifiers: old(self)@, events: old(login_events)@ }),
                (Decoded { modifiers: self@, events: login_events@ }) == before.after_all(
                    events@.take(i as int),
                ),
        {
            assert(events@.take(i + 1).drop_last() =~= events@.take(i as int));
            let ev = events[i];
            if ev.event_type == EV_KEY {
                self.update_modifiers(ev.code, ev.value);
                if ev.value != 0 {
                    match Self::map_key(ev.code, self.shift, self.caps_lock) {
                        Some(login_event) => login_events.push(login_event),
                        None => {},
                    }
                }
            }
        }
        assert(events@.take(events@.len() as int) =~= events@);
    }

    fn update_modifiers(&mut self, code: u16, value: i32)
        ensures
            final(self)@ == old(self)@.on(code, value),
    {
        match code {
            KEY_LEFTSHIFT | KEY_RIGHTSHIFT => {
                self.shift = value != 0;
            },
            KEY_CAPSLOCK => {
                if value == 1 {
                    self.caps_lock = !self.caps_lock;
                }
            },
            _ => {},
        }
    }

    /// The login event that a key gives.
    pub fn map_key(code: u16, shift: bool, caps_lock: bool) -> (event: Option<LoginEvent>)
        ensures
            event == (Modifiers { shift, caps_lock }).login_event(code),
    {
        match code {
            KEY_ENTER => Some(LoginEvent::Submit),
            KEY_KPENTER => Some(LoginEvent::Submit),
            KEY_BACKSPACE => Some(LoginEvent::Delete),
            KEY_UP => Some(LoginEvent::PreviousField),
            KEY_ESC => Some(LoginEvent::PreviousField),
            KEY_SPACE => Some(LoginEvent::Char(' ')),
            code => match Self::map_printable_key(code, shift, caps_lock) {
                Some(c) => Some(LoginEvent::Char(c)),
                None => None,
            },
        }
    }

    /// The character that a key types.
    pub fn map_printable_key(code: u16, shift: bool, caps_lock: bool) -> (typed: Option<char>)
        ensures
            typed == (Modifiers { shift, caps_lock }).printable(code),
    {
        if let Some(c) = Self::map_letter_key(code) {
            let upper = shift ^ caps_lock;
            return Some(
                if upper {
                    to_upper(c)
                } else {
                    c
                },
            );
        }
        proof {
            reveal_strlit("1234567890-=");
            reveal_strlit("!@#$%^&*()_+");
            reveal_strlit("[]");
            reveal_strlit("{}");
            reveal_strlit(";'`");
            reveal_strlit(":\"~");
            reveal_strlit(",./");
            reveal_strlit("<>?");
            reveal_strlit("789-456+1230.");
        }
        let c = match code {
            KEY_1 => if shift {
                '!'
            } else {
                '1'
            },
            KEY_2 => if shift {
                '@'
            } else {
                '2'
            },
            KEY_3 => if shift {
                '#'
            } else {
                '3'
            },
            KEY_4 => if shift {
                '$'
            } else {
                '4'
            },
            KEY_5 => if shift {
                '%'
            } else {
                '5'
            },
            KEY_6 => if shift {
                '^'
            } else {
                '6'
            },
            KEY_7 => if shift {
                '&'
            } else {
                '7'
            },
            KEY_8 => if shift {
                '*'
            } else {
                '8'
            },
            KEY_9 => if shift {
                '('
            } else {
                '9'
            },
            KEY_0 => if shift {
                ')'
            } else {
                '0'
            },
            KEY_MINUS => if shift {
                '_'
            } else {
                '-'
            },
            KEY_EQUAL => if shift {
                '+'
            } else {
                '='
            },
            KEY_LEFTBRACE => if shift {
                '{'
            } else {
                '['
            },
            KEY_RIGHTBRACE => if shift {
                '}'
            } else {
                ']'
            },
            KEY_BACKSLASH => if shift {
                '|'
            } else {
                '\\'
            },
            KEY_SEMICOLON => if shift {
                ':'
            } else {
                ';'
            },
            KEY_APOSTROPHE => if shift {
                '"'
            } else {
                '\''
            },
            KEY_GRAVE => if shift {
                '~'
            } else {
                '`'
            },
            KEY_COMMA => if shift {
                '<'
            } else {
                ','
            },
            KEY_DOT => if shift {
                '>'
            } else {
                '.'
            },
            KEY_SLASH => if shift {
                '?'
            } else {
                '/'
            },
            KEY_KP0 => '0',
            KEY_KP1 => '1',
            KEY_KP2 => '2',
            KEY_KP3 => '3',
            KEY_KP4 => '4',
            KEY_KP5 => '5',
            KEY_KP6 => '6',
            KEY_KP7 => '7',
            KEY_KP8 => '8',
            KEY_KP9 => '9',
            KEY_KPMINUS => '-',
            KEY_KPPLUS => '+',
            KEY_KPASTERISK => '*',
            KEY_KPSLASH => '/',
            KEY_KPDOT => '.',
            _ => return None,
        };
        Some(c)
    }

    /// The lower-case letter on a key.
    pub fn map_letter_key(code: u16) -> (letter: Option<char>)
        ensures
            letter == letter_on(code),
            letter matches Some(c) ==> 'a' <= c <= 'z',
    {
        proof {
            reveal_strlit("qwertyuiop");
            reveal_strlit("asdfghjkl");
            reveal_strlit("zxcvbnm");
        }
        match code {
            KEY_A => Some('a'),
            KEY_B => Some('b'),
            KEY_C => Some('c'),
            KEY_D => Some('d'),
            KEY_E => Some('e'),
            KEY_F => Some('f'),
            KEY_G => Some('g'),
            KEY_H => Some('h'),
            KEY_I => Some('i'),
            KEY_J => Some('j'),
            KEY_K => Some('k'),
            KEY_L => Some('l'),
            KEY_M => Some('m'),
            KEY_N => Some('n'),
            KEY_O => Some('o'),
            KEY_P => Some('p'),
            KEY_Q => Some('q'),
            KEY_R => Some('r'),
            KEY_S => Some('s'),
            KEY_T => Some('t'),
            KEY_U => Some('u'),
            KEY_V => Some('v'),
            KEY_W => Some('w'),
            KEY_X => Some('x'),
            KEY_Y => Some('y'),
            KEY_Z => Some('z'),
            _ => None,
        }
    }
}

/// The upper-case form of a lower-case letter.
fn to_upper(c: char) -> (u: char)
    requires
        'a' <= c <= 'z',
    ensures
        u == upper(c),
{
    (c as u8 - 32) as char
}

/// Picks the keyboards out of the devices, by their index. A device that could not be opened,
/// or that names no keys, is `None`.
pub fn find_keyboards(devices: &Vec<Option<Vec<u16>>>) -> (found: Result<Vec<usize>, NoKeyboard>)
    ensures
        match found {
            Ok(keyboards) => {
                &&& keyboards@.len() > 0
                &&& forall|i: int, j: int|
                    0 <= i < j < keyboards@.len() ==> keyboards@[i] < keyboards@[j]
                &&& forall|k: usize|
                    keyboards@.contains(k) <==> (k < devices@.len() && is_keyboard(
                        devices@[k as int],
                    ))
            },
            Err(_) => forall|k: int| 0 <= k < devices@.len() ==> !is_keyboard(devices@[k]),
        },
{
    let mut keyboards: Vec<usize> = Vec::new();
    for idx in 0..devices.len()
        invariant
            forall|i: int, j: int|
                0 <= i < j < keyboards@.len() ==> keyboards@[i] < keyboards@[j],
            forall|i: int|
                0 <= i < keyboards@.len() ==> keyboards@[i] < idx && is_keyboard(
                    devices@[#[trigger] keyboards@[i] as int],
                ),
            forall|k: usize|
                k < idx && is_keyboard(devices@[k as int]) ==> keyboards@.contains(k),
    {
        let ghost before = keyboards@;
        if let Some(keys) = &devices[idx] {
            if has_key(keys, KEY_A) && has_key(keys, KEY_Z) && has_key(keys, KEY_ENTER) && has_key(
                keys,
                KEY_BACKSPACE,
            ) {
                keyboards.push(idx);
                assert(keyboards@[before.len() as int] == idx);
            }
        }
        proof {
            assert forall|k: usize| k < idx + 1 && is_keyboard(devices@[k as int]) implies
                keyboards@.contains(k) by {
                if k < idx {
                    assert(before.contains(k));
                    let i = choose|i: int| 0 <= i < before.len() && before[i] == k;
                    assert(keyboards@[i] == k);
                }
            }
        }
    }
    if keyboards.len() == 0 {
        assert forall|k: int| 0 <= k < devices@.len() implies !is_keyboard(devices@[k]) by {
            assert(!keyboards@.contains(k as usize));
        }
        Err(NoKeyboard)
    } else {
        Ok(keyboards)
    }
}

fn has_key(keys: &Vec<u16>, key: u16) -> (found: bool)
    ensures
        found == keys@.contains(key),
{
    for i in 0..keys.len()
        invariant
            forall|j: int| 0 <= j < i ==> keys@[j] != key,
    {
        if keys[i] == key {
            return true;
        }
    }
    false
}

/// Letting a key go types nothing.
pub proof fn law_release_types_nothing(decoded: Decoded, ev: InputEvent)
    requires
        ev.value == 0,
    ensures
        decoded.after(ev).events == decoded.events,
{
}

/// A letter is upper-case exactly when one of shift and caps lock is on.
pub proof fn law_letter_case(modifiers: Modifiers, code: u16)
    requires
        letter_on(code) is Some,
    ensures
        modifiers.printable(code) matches Some(c) && (if modifiers.shift != modifiers.caps_lock {
            'A' <= c <= 'Z' && c as u32 + 32 == letter_on(code)->0 as u32
        } else {
            'a' <= c <= 'z' && c == letter_on(code)->0
        }),
{
    lemma_letter_range(code);
}

proof fn lemma_letter_range(code: u16)
    ensures
        letter_on(code) matches Some(c) ==> 'a' <= c <= 'z',
{
    reveal_strlit("qwertyuiop");
    reveal_strlit("asdfghjkl");
    reveal_strlit("zxcvbnm");
}

/// Caps lock changes letters only.
pub proof fn law_caps_lock_is_for_letters(modifiers: Modifiers, caps_lock: bool, code: u16)
    requires
        letter_on(code) is None,
    ensures
        (Modifiers { caps_lock, ..modifiers }).login_event(code) == modifiers.login_event(code),
{
}

/// The keypad types the same whatever the modifiers are.
pub proof fn law_keypad_ignores_modifiers(modifiers: Modifiers, code: u16)
    requires
        keypad_sign_on(code) is Some,
    ensures
        modifiers.printable(code) == keypad_sign_on(code),
{
}

/// Pressing caps lock twice changes nothing, and neither does holding or releasing it.
pub proof fn law_caps_lock_toggles(modifiers: Modifiers, value: i32)
    ensures
        modifiers.on(KEY_CAPSLOCK, 1).caps_lock == !modifiers.caps_lock,
        modifiers.on(KEY_CAPSLOCK, 1).on(KEY_CAPSLOCK, 1) == modifiers,
        value != 1 ==> modifiers.on(KEY_CAPSLOCK, value) == modifiers,
{
}

/// What a key types is a printable ASCII character.
pub proof fn law_keys_type_ascii(modifiers: Modifiers, code: u16)
    ensures
        modifiers.login_event(code) matches Some(LoginEvent::Char(c)) ==> ' ' <= c <= '~',
{
    lemma_letter_range(code);
    reveal_strlit("1234567890-=");
    reveal_strlit("!@#$%^&*()_+");
    reveal_strlit("[]");
    reveal_strlit("{}");
    reveal_strlit(";'`");
    reveal_strlit(":\"~");
    reveal_strlit(",./");
    reveal_strlit("<>?");
    reveal_strlit("789-456+1230.");
}

/// Every printable ASCII character can be typed on the main block.
pub proof fn law_every_ascii_character_has_a_key(c: char)
    requires
        ' ' <= c <= '~',
    ensures
        exists|code: u16, shift: bool| #[trigger]
            (Modifiers { shift, caps_lock: false }).login_event(code) == Some(LoginEvent::Char(c)),
{
    reveal_strlit("qwertyuiop");
    reveal_strlit("asdfghjkl");
    reveal_strlit("zxcvbnm");
    reveal_strlit("1234567890-=");
    reveal_strlit("!@#$%^&*()_+");
    reveal_strlit("[]");
    reveal_strlit("{}");
    reveal_strlit(";'`");
    reveal_strlit(":\"~");
    reveal_strlit(",./");
    reveal_strlit("<>?");
    let (code, shift) = key_for(c);
    assert((Modifiers { shift, caps_lock: false }).login_event(code) == Some(
        LoginEvent::Char(c),
    ));
}

/// The key of the main block that types a character, and whether it takes shift.
spec fn key_for(c: char) -> (u16, bool) {
    match c {
        ' ' => (KEY_SPACE, false),
        '!' => (KEY_1, true),
        '"' => (KEY_APOSTROPHE, true),
        '#' => (KEY_3, true),
        '$' => (KEY_4, true),
        '%' => (KEY_5, true),
        '&' => (KEY_7, true),
        '\'' => (KEY_APOSTROPHE, false),
        '(' => (KEY_9, true),
        ')' => (KEY_0, true),
        '*' => (KEY_8, true),
        '+' => (KEY_EQUAL, true),
        ',' => (KEY_COMMA, false),
        '-' => (KEY_MINUS, false),
        '.' => (KEY_DOT, false),
        '/' => (KEY_SLASH, false),
        '0' => (KEY_0, false),
        '1' => (KEY_1, false),
        '2' => (KEY_2, false),
        '3' => (KEY_3, false),
        '4' => (KEY_4, false),
        '5' => (KEY_5, false),
        '6' => (KEY_6, false),
        '7' => (KEY_7, false),
        '8' => (KEY_8, false),
        '9' => (KEY_9, false),
        ':' => (KEY_SEMICOLON, true),
        ';' => (KEY_SEMICOLON, false),
        '<' => (KEY_COMMA, true),
        '=' => (KEY_EQUAL, false),
        '>' => (KEY_DOT, true),
        '?' => (KEY_SLASH, true),
        '@' => (KEY_2, true),
        'A' => (KEY_A, true),
        'B' => (KEY_B, true),
        'C' => (KEY_C, true),
        'D' => (KEY_D, true),
        'E' => (KEY_E, true),
        'F' => (KEY_F, true),
        'G' => (KEY_G, true),
        'H' => (KEY_H, true),
        'I' => (KEY_I, true),
        'J' => (KEY_J, true),
        'K' => (KEY_K, true),
        'L' => (KEY_L, true),
        'M' => (KEY_M, true),
        'N' => (KEY_N, true),
        'O' => (KEY_O, true),
        'P' => (KEY_P, true),
        'Q' => (KEY_Q, true),
        'R' => (KEY_R, true),
        'S' => (KEY_S, true),
        'T' => (KEY_T, true),
        'U' => (KEY_U, true),
        'V' => (KEY_V, true),
        'W' => (KEY_W, true),
        'X' => (KEY_X, true),
        'Y' => (KEY_Y, true),
        'Z' => (KEY_Z, true),
        '[' => (KEY_LEFTBRACE, false),
        '\\' => (KEY_BACKSLASH, false),
        ']' => (KEY_RIGHTBRACE, false),
        '^' => (KEY_6, true),
        '_' => (KEY_MINUS, true),
        '`' => (KEY_GRAVE, false),
        'a' => (KEY_A, false),
        'b' => (KEY_B, false),
        'c' => (KEY_C, false),
        'd' => (KEY_D, false),
        'e' => (KEY_E, false),
        'f' => (KEY_F, false),
        'g' => (KEY_G, false),
        'h' => (KEY_H, false),
        'i' => (KEY_I, false),
        'j' => (KEY_J, false),
        'k' => (KEY_K, false),
        'l' => (KEY_L, false),
        'm' => (KEY_M, false),
        'n' => (KEY_N, false),
        'o' => (KEY_O, false),
        'p' => (KEY_P, false),
        'q' => (KEY_Q, false),
        'r' => (KEY_R, false),
        's' => (KEY_S, false),
        't' => (KEY_T, false),
        'u' => (KEY_U, false),
        'v' => (KEY_V, false),
        'w' => (KEY_W, false),
        'x' => (KEY_X, false),
        'y' => (KEY_Y, false),
        'z' => (KEY_Z, false),
        '{' => (KEY_LEFTBRACE, true),
        '|' => (KEY_BACKSLASH, true),
        '}' => (KEY_RIGHTBRACE, true),
        '~' => (KEY_GRAVE, true),
        _ => (KEY_SPACE, false),
    }
}

proof fn lemma_after_all_from(decoded: Decoded, events: Seq<InputEvent>)
    ensures
        decoded.after_all(events).modifiers == decoded.modifiers.start().after_all(
            events,
        ).modifiers,
        decoded.after_all(events).events == decoded.events
            + decoded.modifiers.start().after_all(events).events,
    decreases events.len(),
{
    if events.len() > 0 {
        lemma_after_all_from(decoded, events.drop_last());
    }
    assert(decoded.after_all(events).events =~= decoded.events
        + decoded.modifiers.start().after_all(events).events);
}

/// It does not matter at which point one reading ends and the next begins: the keys typed come
/// out in the same order, and the modifiers are followed across the two.
pub proof fn law_readings_join(modifiers: Modifiers, first: Seq<Fetch>, second: Seq<Fetch>)
    ensures
        ({
            let one = modifiers.start().after_fetched(first);
            let two = one.modifiers.start().after_fetched(second);
            modifiers.start().after_fetched(first + second) == (Decoded {
                modifiers: two.modifiers,
                events: one.events + two.events,
            })
        }),
    decreases second.len(),
{
    let one = modifiers.start().after_fetched(first);
    if second.len() == 0 {
        assert(first + second =~= first);
        assert(one.events + Seq::<LoginEvent>::empty() =~= one.events);
    } else {
        law_readings_join(modifiers, first, second.drop_last());
        let middle = one.modifiers.start().after_fetched(second.drop_last());
        assert((first + second).drop_last() =~= first + second.drop_last());
        let joined = Decoded {
            modifiers: middle.modifiers,
            events: one.events + middle.events,
        };
        if let Fetch::Events(events) = second.last() {
            lemma_after_all_from(joined, events@);
            lemma_after_all_from(middle, events@);
            let added = middle.modifiers.start().after_all(events@).events;
            assert(one.events + middle.events + added =~= one.events + (middle.events + added));
        }
    }
}

/// Either shift key turns shift on while it is pressed or held, and off when it is released. No
/// other key touches shift, and only caps lock touches caps lock.
pub proof fn law_both_shift_keys_count(modifiers: Modifiers, code: u16, value: i32)
    ensures
        code == KEY_LEFTSHIFT || code == KEY_RIGHTSHIFT ==> modifiers.on(code, value).shift == (value
            != 0),
        code != KEY_LEFTSHIFT && code != KEY_RIGHTSHIFT ==> modifiers.on(code, value).shift
            == modifiers.shift,
        code != KEY_CAPSLOCK ==> modifiers.on(code, value).caps_lock == modifiers.caps_lock,
{
}

/// What needs shift can be typed with either shift key: the press of a key under a held shift key
/// types what the key has with shift.
pub proof fn law_shift_works_with_either_key(decoded: Decoded, shift_code: u16, code: u16, c: char)
    requires
        shift_code == KEY_LEFTSHIFT || shift_code == KEY_RIGHTSHIFT,
        code != KEY_LEFTSHIFT && code != KEY_RIGHTSHIFT && code != KEY_CAPSLOCK,
        (Modifiers { shift: true, ..decoded.modifiers }).login_event(code) == Some(
            LoginEvent::Char(c),
        ),
    ensures
        decoded.after_all(
            seq![
                InputEvent { event_type: 1, code: shift_code, value: 1 },
                InputEvent { event_type: 1, code, value: 1 },
            ],
        ) == (Decoded {
            modifiers: Modifiers { shift: true, ..decoded.modifiers },
            events: decoded.events.push(LoginEvent::Char(c)),
        }),
{
    let press = InputEvent { event_type: 1, code: shift_code, value: 1 };
    let key = InputEvent { event_type: 1, code, value: 1 };
    let events = seq![press, key];
    assert(events.drop_last() =~= seq![press]);
    assert(seq![press].drop_last() =~= Seq::empty());
    assert(decoded.after_all(Seq::<InputEvent>::empty()) == decoded);
    lemma_modifier_keys_type_nothing(shift_code);
    assert(decoded.after_all(seq![press]) == decoded.after(press));
}

proof fn lemma_modifier_keys_type_nothing(code: u16)
    requires
        code == KEY_LEFTSHIFT || code == KEY_RIGHTSHIFT || code == KEY_CAPSLOCK,
    ensures
        forall|modifiers: Modifiers| (#[trigger] modifiers.login_event(code)) is None,
{
}

/// The modifier keys type nothing themselves.
pub proof fn law_modifier_keys_type_nothing(modifiers: Modifiers, code: u16)
    requires
        code == KEY_LEFTSHIFT || code == KEY_RIGHTSHIFT || code == KEY_CAPSLOCK,
    ensures
        modifiers.login_event(code) is None,
{
    lemma_modifier_keys_type_nothing(code);
}

/// A key that is pressed or held gives its event behind the earlier ones, under the modifiers as
/// they are then. One without an event leaves the earlier ones as they are.
pub proof fn law_pressed_and_held_keys_type(decoded: Decoded, ev: InputEvent)
    requires
        ev.event_type == 1,
        ev.value != 0,
    ensures
        ({
            let after = decoded.after(ev);
            &&& after.modifiers == decoded.modifiers.on(ev.code, ev.value)
            &&& after.events == match after.modifiers.login_event(ev.code) {
                Some(event) => decoded.events.push(event),
                None => decoded.events,
            }
        }),
{
}

/// A release is followed too, and an event that is not of a key is not.
pub proof fn law_only_key_events_are_followed(decoded: Decoded, ev: InputEvent)
    ensures
        ev.event_type == 1 ==> decoded.after(ev).modifiers == decoded.modifiers.on(
            ev.code,
            ev.value,
        ),
        ev.event_type != 1 ==> decoded.after(ev) == decoded,
{
}

/// The events of a keyboard are decoded one after the other.
pub proof fn law_events_are_decoded_in_order(
    decoded: Decoded,
    events: Seq<InputEvent>,
    ev: InputEvent,
)
    ensures
        decoded.after_all(Seq::empty()) == decoded,
        decoded.after_all(events.push(ev)) == decoded.after_all(events).after(ev),
{
    assert(events.push(ev).drop_last() =~= events);
}

/// The keyboards are decoded one after the other. One without events does not change anything, and
/// does not keep the next one from being decoded.
pub proof fn law_keyboards_are_decoded_in_order(decoded: Decoded, fetched: Seq<Fetch>, fetch: Fetch)
    ensures
        decoded.after_fetched(Seq::empty()) == decoded,
        decoded.after_fetched(fetched.push(fetch)) == match fetch {
            Fetch::Events(events) => decoded.after_fetched(fetched).after_all(events@),
            _ => decoded.after_fetched(fetched),
        },
{
    assert(fetched.push(fetch).drop_last() =~= fetched);
}

/// The keys of the alphabet, from A to Z.
pub open spec fn alphabet() -> Seq<u16> {
    seq![
        KEY_A,
        KEY_B,
        KEY_C,
        KEY_D,
        KEY_E,
        KEY_F,
        KEY_G,
        KEY_H,
        KEY_I,
        KEY_J,
        KEY_K,
        KEY_L,
        KEY_M,
        KEY_N,
        KEY_O,
        KEY_P,
        KEY_Q,
        KEY_R,
        KEY_S,
        KEY_T,
        KEY_U,
        KEY_V,
        KEY_W,
        KEY_X,
        KEY_Y,
        KEY_Z,
    ]
}

/// Each key of the alphabet types its letter: capital with one of shift and caps lock, small with
/// none or both. No other key types a letter.
pub proof fn law_letter_keys_type_their_letters(modifiers: Modifiers, code: u16)
    ensures
        forall|i: int|
            0 <= i < 26 ==> modifiers.login_event(#[trigger] alphabet()[i]) == Some(
                LoginEvent::Char(
                    if modifiers.shift != modifiers.caps_lock {
                        "ABCDEFGHIJKLMNOPQRSTUVWXYZ"@[i]
                    } else {
                        "abcdefghijklmnopqrstuvwxyz"@[i]
                    },
                ),
            ),
        (modifiers.login_event(code) matches Some(LoginEvent::Char(c)) && ('a' <= c <= 'z' || 'A'
            <= c <= 'Z')) ==> alphabet().contains(code),
{
    reveal_strlit("qwertyuiop");
    reveal_strlit("asdfghjkl");
    reveal_strlit("zxcvbnm");
    reveal_strlit("abcdefghijklmnopqrstuvwxyz");
    reveal_strlit("ABCDEFGHIJKLMNOPQRSTUVWXYZ");
    lemma_alphabet(code);
    assert forall|i: int| 0 <= i < 26 implies modifiers.login_event(#[trigger] alphabet()[i])
        == Some(
        LoginEvent::Char(
            if modifiers.shift != modifiers.caps_lock {
                "ABCDEFGHIJKLMNOPQRSTUVWXYZ"@[i]
            } else {
                "abcdefghijklmnopqrstuvwxyz"@[i]
            },
        ),
    ) by {
        assert(letter_on(alphabet()[i]) == Some("abcdefghijklmnopqrstuvwxyz"@[i]));
    }
    if letter_on(code) is None {
        reveal_strlit("1234567890-=");
        reveal_strlit("!@#$%^&*()_+");
        reveal_strlit("[]");
        reveal_strlit("{}");
        reveal_strlit(";'`");
        reveal_strlit(":\"~");
        reveal_strlit(",./");
        reveal_strlit("<>?");
        reveal_strlit("789-456+1230.");
    }
}

/// A key with a letter is one of the alphabet.
proof fn lemma_alphabet(code: u16)
    ensures
        letter_on(code) is Some ==> alphabet().contains(code),
{
    let keys = alphabet();
    assert(keys[0] == KEY_A && keys[1] == KEY_B && keys[2] == KEY_C && keys[3] == KEY_D && keys[4]
        == KEY_E && keys[5] == KEY_F && keys[6] == KEY_G && keys[7] == KEY_H && keys[8] == KEY_I
        && keys[9] == KEY_J && keys[10] == KEY_K && keys[11] == KEY_L && keys[12] == KEY_M
        && keys[13] == KEY_N && keys[14] == KEY_O && keys[15] == KEY_P && keys[16] == KEY_Q
        && keys[17] == KEY_R && keys[18] == KEY_S && keys[19] == KEY_T && keys[20] == KEY_U
        && keys[21] == KEY_V && keys[22] == KEY_W && keys[23] == KEY_X && keys[24] == KEY_Y
        && keys[25] == KEY_Z);
}

/// Each key with a digit or a sign types it, and with shift the other one that is printed on it.
pub proof fn law_sign_keys_type_their_signs(modifiers: Modifiers)
    ensures
        ({
            let keys = seq![
                KEY_1,
                KEY_2,
                KEY_3,
                KEY_4,
                KEY_5,
                KEY_6,
                KEY_7,
                KEY_8,
                KEY_9,
                KEY_0,
                KEY_MINUS,
                KEY_EQUAL,
                KEY_LEFTBRACE,
                KEY_RIGHTBRACE,
                KEY_BACKSLASH,
                KEY_SEMICOLON,
                KEY_APOSTROPHE,
                KEY_GRAVE,
                KEY_COMMA,
                KEY_DOT,
                KEY_SLASH,
            ];
            forall|i: int|
                0 <= i < 21 ==> modifiers.login_event(#[trigger] keys[i]) == Some(
                    LoginEvent::Char(
                        if modifiers.shift {
                            "!@#$%^&*()_+{}|:\"~<>?"@[i]
                        } else {
                            "1234567890-=[]\\;'`,./"@[i]
                        },
                    ),
                )
        }),
{
    reveal_strlit("!@#$%^&*()_+{}|:\"~<>?");
    reveal_strlit("1234567890-=[]\\;'`,./");
    reveal_strlit("1234567890-=");
    reveal_strlit("!@#$%^&*()_+");
    reveal_strlit("[]");
    reveal_strlit("{}");
    reveal_strlit(";'`");
    reveal_strlit(":\"~");
    reveal_strlit(",./");
    reveal_strlit("<>?");
}

/// Each key of the keypad types what is printed on it.
pub proof fn law_keypad_types_its_signs(modifiers: Modifiers)
    ensures
        ({
            let keys = seq![
                KEY_KP0,
                KEY_KP1,
                KEY_KP2,
                KEY_KP3,
                KEY_KP4,
                KEY_KP5,
                KEY_KP6,
                KEY_KP7,
                KEY_KP8,
                KEY_KP9,
                KEY_KPPLUS,
                KEY_KPMINUS,
                KEY_KPASTERISK,
                KEY_KPSLASH,
                KEY_KPDOT,
            ];
            forall|i: int|
                0 <= i < 15 ==> modifiers.login_event(#[trigger] keys[i]) == Some(
                    LoginEvent::Char("0123456789+-*/."@[i]),
                )
        }),
{
    reveal_strlit("0123456789+-*/.");
    reveal_strlit("789-456+1230.");
}

/// The keys that do something else than typing.
pub proof fn law_control_keys(modifiers: Modifiers, code: u16)
    ensures
        modifiers.login_event(code) == Some(LoginEvent::Submit) <==> code == KEY_ENTER || code
            == KEY_KPENTER,
        modifiers.login_event(code) == Some(LoginEvent::Delete) <==> code == KEY_BACKSPACE,
        modifiers.login_event(code) == Some(LoginEvent::PreviousField) <==> code == KEY_UP || code
            == KEY_ESC,
        modifiers.login_event(code) == Some(LoginEvent::Char(' ')) <==> code == KEY_SPACE,
        modifiers.login_event(code) matches Some(event) ==> crate::login::is_key(event),
{
    lemma_letter_range(code);
    reveal_strlit("1234567890-=");
    reveal_strlit("!@#$%^&*()_+");
    reveal_strlit("[]");
    reveal_strlit("{}");
    reveal_strlit(";'`");
    reveal_strlit(":\"~");
    reveal_strlit(",./");
    reveal_strlit("<>?");
    reveal_strlit("789-456+1230.");
}

/// A device needs four keys to count as a keyboard. It has to be opened, and other keys neither help
/// nor hurt.
pub proof fn law_keyboards_have_four_keys(device: Option<Vec<u16>>)
    ensures
        is_keyboard(device) <==> device is Some && set![
            KEY_A,
            KEY_Z,
            KEY_ENTER,
            KEY_BACKSPACE,
        ].subset_of(device->0@.to_set()),
{
    let needed = set![KEY_A, KEY_Z, KEY_ENTER, KEY_BACKSPACE];
    assert(needed.contains(KEY_A) && needed.contains(KEY_Z) && needed.contains(KEY_ENTER)
        && needed.contains(KEY_BACKSPACE));
    if device is Some {
        broadcast use vstd::seq_lib::group_seq_properties;

        let keys = device->0@;
        assert forall|key: u16| keys.to_set().contains(key) <==> keys.contains(key) by {}
    }
}

/// Decoding starts with the modifiers as they are, and with nothing typed.
pub proof fn law_decoding_starts_with_nothing(modifiers: Modifiers)
    ensures
        modifiers.start().modifiers == modifiers,
        modifiers.start().events == Seq::<LoginEvent>::empty(),
{
}

} // verus!
