use shlog::login::{LoginAction, LoginEvent, LoginState};
use shlog::web::{demo_login, is_blank, map_key_event};

fn authenticate(username: &str, password: &str) -> Option<LoginAction> {
    Some(LoginAction::Authenticate {
        username: username.to_owned(),
        password: password.to_owned(),
    })
}

#[test]
fn named_keys_give_their_events() {
    assert!(matches!(map_key_event("Enter"), Some(LoginEvent::Submit)));
    assert!(matches!(map_key_event("Backspace"), Some(LoginEvent::Delete)));
    assert!(matches!(map_key_event("ArrowUp"), Some(LoginEvent::PreviousField)));
    assert!(matches!(map_key_event("Escape"), Some(LoginEvent::PreviousField)));
    assert!(map_key_event("Shift").is_none());
    assert!(map_key_event("F1").is_none());
    assert!(map_key_event("").is_none());
}

#[test]
fn character_keys_type_themselves() {
    assert!(matches!(map_key_event("a"), Some(LoginEvent::Char('a'))));
    assert!(matches!(map_key_event(" "), Some(LoginEvent::Char(' '))));
    assert!(matches!(map_key_event("\u{e9}"), Some(LoginEvent::Char('\u{e9}'))));
    assert!(map_key_event("e\u{301}").is_none());
}

#[test]
fn the_demo_knows_one_user() {
    let events = demo_login(authenticate("user", "password"));
    assert_eq!(events.len(), 2);
    let mut state = LoginState::Authenticating { username: "user".to_owned() };
    for event in events {
        state = state.update(event).state;
    }
    assert_eq!(state.visual_state(), 5);
    for action in [authenticate("user", "x"), authenticate("User", "password")] {
        let events = demo_login(action);
        assert_eq!(events.len(), 1);
        assert!(matches!(events[0], LoginEvent::AuthFailure));
    }
    assert!(demo_login(None).is_empty());
    assert!(demo_login(Some(LoginAction::Exit)).is_empty());
}

#[test]
fn a_blank_configuration_is_white_space_only() {
    for text in ["", " \t\r\n", "\u{a0}\u{2003}\u{b}", "x", " a ", "\u{200b}", "\u{85}"] {
        assert_eq!(is_blank(text), text.trim().is_empty());
    }
    assert!(is_blank("\u{a0}\u{2003}"));
    assert!(!is_blank("[input]"));
}

#[test]
fn white_space_is_the_list_of_the_unicode_database() {
    let listed = |c: char| {
        matches!(
            c as u32,
            0x9..=0xd
                | 0x20
                | 0x85
                | 0xa0
                | 0x1680
                | 0x2000..=0x200a
                | 0x2028..=0x2029
                | 0x202f
                | 0x205f
                | 0x3000
        )
    };
    for c in '\0'..=char::MAX {
        assert_eq!(is_blank(c.encode_utf8(&mut [0; 4])), listed(c));
    }
}
