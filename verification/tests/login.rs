use shlog::login::{
    animated_dots, dots_after, LoginAction, LoginEvent, LoginState, LoginTransition,
};
use std::time::Duration;

fn type_text(mut state: LoginState, text: &str) -> LoginState {
    for c in text.chars() {
        state = state.update(LoginEvent::Char(c)).state;
    }
    state
}

fn authenticating() -> LoginState {
    LoginState::Authenticating { username: "ann".to_owned() }
}

fn message(state: &LoginState) -> String {
    state.message(Duration::from_millis(0))
}

#[test]
fn the_dialogue_starts_with_an_empty_name() {
    let state = LoginState::default();
    assert_eq!(message(&state), "Hello _");
    assert_eq!(state.visual_state(), 0);
}

#[test]
fn typing_appends_and_delete_takes_back() {
    let state = type_text(LoginState::default(), "ann");
    assert_eq!(message(&state), "Hello ann_");
    let t = state.update(LoginEvent::Delete);
    assert!(t.action.is_none());
    assert!(!t.reset_timer);
    assert_eq!(message(&t.state), "Hello an_");
}

#[test]
fn delete_on_an_empty_name_changes_nothing() {
    let t = LoginState::default().update(LoginEvent::Delete);
    assert_eq!(message(&t.state), "Hello _");
    assert!(!t.reset_timer);
}

#[test]
fn an_empty_name_is_not_submitted() {
    let t = LoginState::default().update(LoginEvent::Submit);
    assert_eq!(t.state.visual_state(), 0);
    assert!(!t.reset_timer);
    assert!(t.action.is_none());
}

#[test]
fn a_name_leads_to_the_password() {
    let t = type_text(LoginState::default(), "ann").update(LoginEvent::Submit);
    assert_eq!(t.state.visual_state(), 1);
    assert!(t.reset_timer);
    assert_eq!(message(&t.state), "Hello ann\n_");
}

#[test]
fn the_password_is_shown_as_stars() {
    let state = type_text(LoginState::default(), "ann").update(LoginEvent::Submit).state;
    let state = type_text(state, "s\u{e4}fe");
    assert_eq!(message(&state), "Hello ann\n****_");
    let state = state.update(LoginEvent::Delete).state;
    assert_eq!(message(&state), "Hello ann\n***_");
}

#[test]
fn credentials_are_what_was_typed() {
    let state = type_text(LoginState::default(), "ann").update(LoginEvent::Submit).state;
    let t = type_text(state, "secret").update(LoginEvent::Submit);
    assert_eq!(t.state.visual_state(), 2);
    assert!(t.reset_timer);
    match t.action {
        Some(LoginAction::Authenticate { username, password }) => {
            assert_eq!(username, "ann");
            assert_eq!(password, "secret");
        }
        other => panic!("unexpected action: {:?}", other),
    }
}

#[test]
fn an_empty_password_can_be_submitted() {
    let state = type_text(LoginState::default(), "ann").update(LoginEvent::Submit).state;
    let t = state.update(LoginEvent::Submit);
    assert!(
        matches!(t.action, Some(LoginAction::Authenticate { password, .. }) if password.is_empty())
    );
}

#[test]
fn going_back_keeps_the_name_and_drops_the_password() {
    let state = type_text(LoginState::default(), "ann").update(LoginEvent::Submit).state;
    let t = type_text(state, "secret").update(LoginEvent::PreviousField);
    assert!(t.reset_timer);
    assert_eq!(message(&t.state), "Hello ann_");
    let state = t.state.update(LoginEvent::Submit).state;
    assert_eq!(message(&state), "Hello ann\n_");
}

#[test]
fn an_accepted_login_starts_the_session_and_then_exits() {
    let t = authenticating().update(LoginEvent::AuthAccepted);
    assert_eq!(t.state.visual_state(), 3);
    assert!(t.action.is_none());
    let t = t.state.update(LoginEvent::SessionStarted);
    assert_eq!(t.state.visual_state(), 5);
    assert_eq!(message(&t.state), "");
    let t = t.state.update(LoginEvent::TimerOver);
    assert_eq!(t.state.visual_state(), 5);
    assert!(matches!(t.action, Some(LoginAction::Exit)));
    assert!(t.reset_timer);
}

#[test]
fn a_refused_login_fails_and_can_be_tried_again() {
    let t = authenticating().update(LoginEvent::AuthFailure);
    assert_eq!(t.state.visual_state(), 4);
    assert_eq!(message(&t.state), "Hello ann\nlogin failed");
    let t = t.state.update(LoginEvent::Char('x'));
    assert_eq!(t.state.visual_state(), 1);
    assert!(t.reset_timer);
    assert_eq!(message(&t.state), "Hello ann\n*_");
}

#[test]
fn a_session_that_fails_shows_the_failure() {
    let state = LoginState::StartingSession { username: "ann".to_owned() };
    let t = state.update(LoginEvent::SessionFailure);
    assert_eq!(t.state.visual_state(), 4);
    let t = t.state.update(LoginEvent::PreviousField);
    assert_eq!(message(&t.state), "Hello ann_");
}

#[test]
fn keys_do_nothing_while_the_daemon_is_asked() {
    for ev in [
        LoginEvent::Char('x'),
        LoginEvent::Delete,
        LoginEvent::Submit,
        LoginEvent::PreviousField,
        LoginEvent::SessionStarted,
        LoginEvent::SessionFailure,
        LoginEvent::TimerOver,
    ] {
        let LoginTransition { state, action, reset_timer } = authenticating().update(ev);
        assert_eq!(state.visual_state(), 2);
        assert!(action.is_none());
        assert!(!reset_timer);
    }
}

#[test]
fn a_verdict_on_the_login_is_not_heard_while_the_session_starts() {
    let state = LoginState::StartingSession { username: "ann".to_owned() };
    let t = state.update(LoginEvent::AuthFailure);
    assert_eq!(t.state.visual_state(), 3);
    assert!(!t.reset_timer);
}

#[test]
fn dots_come_one_by_one_and_start_over() {
    assert_eq!(dots_after(0), "");
    assert_eq!(dots_after(179), "");
    assert_eq!(dots_after(180), ".");
    assert_eq!(dots_after(360), "..");
    assert_eq!(dots_after(719), "...");
    assert_eq!(dots_after(720), "");
    assert_eq!(animated_dots(Duration::from_millis(360)), "..");
    let state = authenticating();
    assert_eq!(state.message(Duration::from_millis(400)), "Hello ann\nauthenticating..");
    assert_eq!(state.message(Duration::from_micros(180_500)), "Hello ann\nauthenticating.");
    assert_eq!(state.message_at(400), "Hello ann\nauthenticating..");
    let state = LoginState::StartingSession { username: "ann".to_owned() };
    assert_eq!(state.message(Duration::from_secs(1)), "Hello ann\nstarting session.");
}
