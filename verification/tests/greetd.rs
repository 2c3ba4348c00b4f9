use shlog::greetd::{Connection, PASSWORD};
use shlog::greetd_client::{ClientAction, Exchange, GreetdResult};
use shlog::{AuthMessageType, ErrorType, Request, Response};

/// What the greeter is told when it logs in with a password at this daemon.
fn log_in(password: &str) -> Vec<GreetdResult> {
    let mut daemon = Connection::new();
    let (mut exchange, request) = Exchange::begin("ann", password);
    let mut results = Vec::new();
    let mut next = Some(request);
    while let Some(request) = next.take() {
        let Some(response) = daemon.handle(request) else {
            break;
        };
        for action in exchange.on_response(response) {
            match action {
                ClientAction::Send { request, .. } => next = Some(request),
                ClientAction::Report { result, .. } => results.push(result),
                ClientAction::Fail(error) => panic!("failed: {}", error),
            }
        }
    }
    assert_eq!(daemon.user(), "ann");
    results
}

#[test]
fn the_right_password_logs_in() {
    let results = log_in(PASSWORD);
    assert_eq!(results.len(), 2);
    assert!(matches!(results[0], GreetdResult::AuthAccepted));
    assert!(matches!(results[1], GreetdResult::SessionStarted));
}

#[test]
fn a_wrong_password_is_refused() {
    for password in ["", "Password", "password "] {
        let results = log_in(password);
        assert_eq!(results.len(), 1);
        assert!(matches!(
            &results[0],
            GreetdResult::AuthFailure(text) if text == "AuthError: Authentication failure"
        ));
    }
}

#[test]
fn the_daemon_asks_for_the_password() {
    let mut daemon = Connection::new();
    assert_eq!(daemon.user(), "<unknown>");
    match daemon.handle(Request::CreateSession { username: "bob".to_owned() }) {
        Some(Response::AuthMessage { auth_message_type, auth_message }) => {
            assert_eq!(auth_message_type, AuthMessageType::Secret);
            assert_eq!(auth_message, "Password");
        }
        other => panic!("unexpected response: {:?}", other),
    }
    assert_eq!(daemon.user(), "bob");
}

#[test]
fn the_daemon_refuses_a_missing_answer() {
    let mut daemon = Connection::new();
    match daemon.handle(Request::PostAuthMessageResponse { response: None }) {
        Some(Response::Error { error_type, description }) => {
            assert_eq!(error_type, ErrorType::AuthError);
            assert_eq!(description, "Authentication failure");
        }
        other => panic!("unexpected response: {:?}", other),
    }
}

#[test]
fn the_daemon_starts_sessions_and_hangs_up_on_a_cancel() {
    let mut daemon = Connection::new();
    let start = Request::StartSession { cmd: vec!["sh".to_owned()], env: vec![] };
    assert!(matches!(daemon.handle(start), Some(Response::Success)));
    assert!(daemon.handle(Request::CancelSession).is_none());
}
