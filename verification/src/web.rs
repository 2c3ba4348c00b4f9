//! The greeter in a web page: its keys, its configuration, and a login without a daemon.

use vstd::prelude::*;

use crate::login::{ActionModel, LoginAction, LoginEvent, LoginModel};
use crate::text::same_text;

verus! {

/// The user that can log in.
pub const DEMO_USER: &'static str = "user";

/// The password of that user.
pub const DEMO_PASSWORD: &'static str = "password";

/// What a key of the page means. Keys have names, and those that type a character are named by
/// it.
pub open spec fn key_event(key: Seq<char>) -> Option<LoginEvent> {
    if key == "Enter"@ {
        Some(LoginEvent::Submit)
    } else if key == "Backspace"@ {
        Some(LoginEvent::Delete)
    } else if key == "ArrowUp"@ || key == "Escape"@ {
        Some(LoginEvent::PreviousField)
    } else if key.len() == 1 {
        Some(LoginEvent::Char(key[0]))
    } else {
        None
    }
}

/// What a key of the page means, by its name.
pub fn map_key_event(key: &str) -> (event: Option<LoginEvent>)
    ensures
        event == key_event(key@),
{
    if same_text(key, "Enter") {
        Some(LoginEvent::Submit)
    } else if same_text(key, "Backspace") {
        Some(LoginEvent::Delete)
    } else if same_text(key, "ArrowUp") || same_text(key, "Escape") {
        Some(LoginEvent::PreviousField)
    } else if key.unicode_len() == 1 {
        Some(LoginEvent::Char(key.get_char(0)))
    } else {
        None
    }
}

/// What follows an action of the login dialogue.
pub open spec fn answer(action: Option<ActionModel>) -> Seq<LoginEvent> {
    match action {
        Some(ActionModel::Authenticate { username, password }) => if username == DEMO_USER@
            && password == DEMO_PASSWORD@ {
            seq![LoginEvent::AuthAccepted, LoginEvent::SessionStarted]
        } else {
            seq![LoginEvent::AuthFailure]
        },
        _ => Seq::empty(),
    }
}

/// Answers an action of the login dialogue in place of a daemon.
pub fn demo_login(action: Option<LoginAction>) -> (events: Vec<LoginEvent>)
    ensures
        events@ == answer(
            match action {
                Some(action) => Some(action@),
                None => None,
            },
        ),
{
    match &action {
        Some(LoginAction::Authenticate { username, password }) => {
            if same_text(username.as_str(), DEMO_USER) && same_text(
                password.as_str(),
                DEMO_PASSWORD,
            ) {
                vec![LoginEvent::AuthAccepted, LoginEvent::SessionStarted]
            } else {
                vec![LoginEvent::AuthFailure]
            }
        },
        _ => Vec::new(),
    }
}

/// The characters with the property `White_Space` of the Unicode Character Database.
pub open spec fn is_white_space(c: char) -> bool {
    ||| '\u{9}' <= c <= '\u{d}'
    ||| c == ' '
    ||| c == '\u{85}'
    ||| c == '\u{a0}'
    ||| c == '\u{1680}'
    ||| '\u{2000}' <= c <= '\u{200a}'
    ||| '\u{2028}' <= c <= '\u{2029}'
    ||| c == '\u{202f}'
    ||| c == '\u{205f}'
    ||| c == '\u{3000}'
}

/// `char::is_whitespace` tells whether a character has the Unicode property `White_Space`, which
/// is that of the characters listed in `is_white_space`.
pub assume_specification[ char::is_whitespace ](c: char) -> (result: bool)
    ensures
        result == is_white_space(c),
;

/// Whether nothing is left of a configuration once the white space around it is gone. Then the
/// default configuration is meant.
pub fn is_blank(config_toml: &str) -> (blank: bool)
    ensures
        blank == forall|i: int|
            0 <= i < config_toml@.len() ==> is_white_space(#[trigger] config_toml@[i]),
{
    for c in iter: config_toml.chars()
        invariant
            iter.seq() == config_toml@,
            forall|k: int| 0 <= k < iter.index() ==> is_white_space(#[trigger] config_toml@[k]),
    {
        if !c.is_whitespace() {
            assert(!is_white_space(config_toml@[iter.index() as int]));
            return false;
        }
    }
    true
}

/// Every character can be typed: its key has its name.
pub proof fn law_character_keys_type_themselves(c: char)
    ensures
        key_event(seq![c]) == Some(LoginEvent::Char(c)),
{
    reveal_strlit("Enter");
    reveal_strlit("Backspace");
    reveal_strlit("ArrowUp");
    reveal_strlit("Escape");
    assert(seq![c].len() == 1);
}

/// Handing in the right name and password ends the dialogue well, and anything else makes it
/// fail.
pub proof fn law_demo_login_is_decided(username: Seq<char>, password: Seq<char>)
    ensures
        ({
            let asked = LoginModel::PasswordInput { username, password }.on(LoginEvent::Submit);
            crate::login::after(asked.state, answer(asked.action)) == if username == DEMO_USER@
                && password == DEMO_PASSWORD@ {
                LoginModel::Success
            } else {
                LoginModel::Failure { username }
            }
        }),
{
    let asked = LoginModel::PasswordInput { username, password }.on(LoginEvent::Submit);
    let events = answer(asked.action);
    reveal_with_fuel(crate::login::after, 3);
    assert(events.drop_last() =~= if events.len() == 2 {
        seq![LoginEvent::AuthAccepted]
    } else {
        seq![]
    });
    assert(seq![LoginEvent::AuthAccepted].drop_last() =~= seq![]);
}

/// The keys with a name that do something else than typing. Other names of more than one character,
/// and the empty one, mean nothing.
pub proof fn law_named_keys(key: Seq<char>)
    ensures
        key_event("Enter"@) == Some(LoginEvent::Submit),
        key_event("Backspace"@) == Some(LoginEvent::Delete),
        key_event("ArrowUp"@) == Some(LoginEvent::PreviousField),
        key_event("Escape"@) == Some(LoginEvent::PreviousField),
        key.len() != 1 && key != "Enter"@ && key != "Backspace"@ && key != "ArrowUp"@ && key
            != "Escape"@ ==> key_event(key) is None,
{
    reveal_strlit("Enter");
    reveal_strlit("Backspace");
    reveal_strlit("ArrowUp");
    reveal_strlit("Escape");
    assert("Enter"@.len() == 5 && "Backspace"@.len() == 9 && "ArrowUp"@.len() == 7
        && "Escape"@.len() == 6);
    assert("ArrowUp"@[0] == 'A');
}

/// One name and one password are accepted. Nothing is answered where nothing was asked.
pub proof fn law_demo_credentials(username: Seq<char>, password: Seq<char>)
    ensures
        answer(Some(ActionModel::Authenticate { username, password })) == if username == "user"@
            && password == "password"@ {
            seq![LoginEvent::AuthAccepted, LoginEvent::SessionStarted]
        } else {
            seq![LoginEvent::AuthFailure]
        },
        answer(Some(ActionModel::Exit)) == Seq::<LoginEvent>::empty(),
        answer(None) == Seq::<LoginEvent>::empty(),
{
}

/// Blanks, tabs and line breaks are white space. Other ASCII characters are not.
pub proof fn law_ascii_white_space(c: char)
    requires
        c as u32 <= 0x7f,
    ensures
        is_white_space(c) <==> c == ' ' || (9 <= c as u32 <= 13),
{
}

} // verus!
