use shlog::greetd_client::{
    connect_error, connect_error_at, format_error, login_error, ClientAction, Exchange, GreetdResult,
};
use shlog::login::LoginEvent;
use shlog::{AuthMessageType, ErrorType, Request, Response};

fn begin() -> Exchange {
    Exchange::begin("ann", "secret").0
}

fn accepted() -> Exchange {
    let mut exchange = begin();
    exchange.on_response(Response::Success);
    exchange
}

fn question(auth_message_type: AuthMessageType) -> Response {
    Response::AuthMessage { auth_message_type, auth_message: "Password:".to_owned() }
}

fn error() -> Response {
    Response::Error { error_type: ErrorType::AuthError, description: "no".to_owned() }
}

fn shown(actions: Vec<ClientAction>) -> Vec<String> {
    actions.iter().map(|action| format!("{:?}", action)).collect()
}

fn cancel() -> String {
    format!("{:?}", ClientAction::Send { request: Request::CancelSession, required: false })
}

#[test]
fn a_login_opens_with_the_name() {
    let (exchange, request) = Exchange::begin("ann", "secret");
    assert!(matches!(request, Request::CreateSession { username } if username == "ann"));
    assert!(!exchange.is_over());
}

#[test]
fn questions_are_answered_with_the_password() {
    for kind in [AuthMessageType::Secret, AuthMessageType::Visible] {
        let mut exchange = begin();
        let mut actions = exchange.on_response(question(kind));
        assert_eq!(actions.len(), 1);
        match actions.pop() {
            Some(ClientAction::Send {
                request: Request::PostAuthMessageResponse { response },
                required,
            }) => {
                assert_eq!(response.as_deref(), Some("secret"));
                assert!(required);
            }
            other => panic!("unexpected action: {:?}", other),
        }
        assert!(!exchange.is_over());
    }
}

#[test]
fn information_is_answered_with_nothing() {
    let mut exchange = begin();
    let mut actions = exchange.on_response(question(AuthMessageType::Info));
    assert_eq!(actions.len(), 1);
    assert!(matches!(
        actions.pop(),
        Some(ClientAction::Send {
            request: Request::PostAuthMessageResponse { response: None },
            required: true,
        })
    ));
    assert!(!exchange.is_over());
}

#[test]
fn an_error_message_ends_the_login() {
    let mut exchange = begin();
    let actions = exchange.on_response(question(AuthMessageType::Error));
    let failure = GreetdResult::AuthFailure("Password:".to_owned());
    let report = format!("{:?}", ClientAction::Report { result: failure, required: false });
    assert_eq!(shown(actions), [cancel(), report]);
    assert!(exchange.is_over());
    assert!(exchange.on_response(Response::Success).is_empty());
}

#[test]
fn an_error_of_the_daemon_ends_the_login() {
    let mut exchange = begin();
    let actions = exchange.on_response(error());
    let failure = GreetdResult::AuthFailure("AuthError: no".to_owned());
    let report = format!("{:?}", ClientAction::Report { result: failure, required: false });
    assert_eq!(shown(actions), [cancel(), report]);
    assert!(exchange.is_over());
}

#[test]
fn acceptance_is_reported_and_the_session_asked_for() {
    let mut exchange = begin();
    let mut actions = exchange.on_response(Response::Success);
    assert_eq!(actions.len(), 2);
    match actions.pop() {
        Some(ClientAction::Send { request: Request::StartSession { cmd, env }, required: true }) => {
            assert_eq!(cmd, ["/bin/bash"]);
            assert!(env.is_empty());
        }
        other => panic!("unexpected action: {:?}", other),
    }
    assert!(matches!(
        actions.pop(),
        Some(ClientAction::Report { result: GreetdResult::AuthAccepted, required: true })
    ));
    assert!(!exchange.is_over());
}

#[test]
fn a_started_session_is_reported() {
    let mut exchange = accepted();
    let mut actions = exchange.on_response(Response::Success);
    assert_eq!(actions.len(), 1);
    assert!(matches!(
        actions.pop(),
        Some(ClientAction::Report { result: GreetdResult::SessionStarted, required: true })
    ));
    assert!(exchange.is_over());
}

#[test]
fn a_session_that_does_not_start_is_reported() {
    let mut exchange = accepted();
    let actions = exchange.on_response(error());
    let failure = GreetdResult::SessionFailed("start_session failed: AuthError: no".to_owned());
    let report = format!("{:?}", ClientAction::Report { result: failure, required: false });
    assert_eq!(shown(actions), [cancel(), report]);
    assert!(exchange.is_over());
}

#[test]
fn a_question_after_acceptance_is_unexpected() {
    let mut exchange = accepted();
    let mut actions = exchange.on_response(question(AuthMessageType::Visible));
    assert_eq!(actions.len(), 1);
    match actions.pop() {
        Some(ClientAction::Fail(message)) => assert_eq!(
            message,
            "unexpected greetd response after start_session: \
             AuthMessage { auth_message_type: Visible, auth_message: \"Password:\" }"
        ),
        other => panic!("unexpected action: {:?}", other),
    }
    assert!(exchange.is_over());
}

#[test]
fn results_are_events_of_the_dialogue() {
    assert!(matches!(GreetdResult::AuthAccepted.login_event(), LoginEvent::AuthAccepted));
    assert!(matches!(GreetdResult::SessionStarted.login_event(), LoginEvent::SessionStarted));
    assert!(matches!(login_error("broken pipe").login_event(), LoginEvent::AuthFailure));
    let failed = GreetdResult::SessionFailed("x".to_owned());
    assert!(matches!(failed.login_event(), LoginEvent::SessionFailure));
}

#[test]
fn errors_say_what_went_wrong() {
    assert_eq!(format_error(ErrorType::Error, "busy"), "Error: busy");
    assert!(matches!(login_error("eof"), GreetdResult::AuthFailure(text) if text == "eof"));
    assert!(matches!(
        connect_error_at("here", "refused"),
        GreetdResult::AuthFailure(text) if text == "connect GREETD_SOCK here: refused"
    ));
    let path = "/run/gr\"eet\n.sock";
    match connect_error(path, "refused") {
        GreetdResult::AuthFailure(text) => {
            assert_eq!(text, format!("connect GREETD_SOCK {:?}: refused", path));
        }
        other => panic!("unexpected result: {:?}", other),
    }
}
