use shlog::greet::{
    on_auth_response, on_start_response, session_shell, trim_newlines, AuthStep, ErrorKind,
};
use shlog::{AuthMessageType, ErrorType, Request, Response};

fn ask(auth_message_type: AuthMessageType) -> AuthStep {
    let auth_message = "Password".to_owned();
    on_auth_response(Response::AuthMessage { auth_message_type, auth_message }, "/bin/zsh")
}

#[test]
fn secrets_are_asked_for_without_echo() {
    assert!(matches!(
        ask(AuthMessageType::Secret),
        AuthStep::Ask { label, echo: false } if label == "Password: "
    ));
    assert!(matches!(
        ask(AuthMessageType::Visible),
        AuthStep::Ask { label, echo: true } if label == "Password: "
    ));
}

#[test]
fn messages_are_told() {
    assert!(matches!(
        ask(AuthMessageType::Info),
        AuthStep::Tell { line, is_error: false } if line == "Info: Password"
    ));
    assert!(matches!(
        ask(AuthMessageType::Error),
        AuthStep::Tell { line, is_error: true } if line == "Auth error: Password"
    ));
}

#[test]
fn an_accepted_user_gets_the_shell() {
    match on_auth_response(Response::Success, "/bin/zsh") {
        AuthStep::Start { request: Request::StartSession { cmd, env } } => {
            assert_eq!(cmd, ["/bin/zsh"]);
            assert!(env.is_empty());
        }
        other => panic!("unexpected step: {:?}", other),
    }
}

#[test]
fn a_refused_user_gets_the_error() {
    let response =
        Response::Error { error_type: ErrorType::AuthError, description: "no".to_owned() };
    match on_auth_response(response, "/bin/zsh") {
        AuthStep::Refused { error } => {
            assert_eq!(error.kind, ErrorKind::PermissionDenied);
            assert_eq!(error.message, "AuthError: no");
        }
        other => panic!("unexpected step: {:?}", other),
    }
}

#[test]
fn the_start_of_the_session_decides() {
    assert!(on_start_response(Response::Success).is_ok());
    let response = Response::Error { error_type: ErrorType::Error, description: "no".to_owned() };
    let error = on_start_response(response).unwrap_err();
    assert_eq!(error.kind, ErrorKind::Other);
    assert_eq!(error.message, "start_session failed: no");
    let response = Response::AuthMessage {
        auth_message_type: AuthMessageType::Info,
        auth_message: "hi".to_owned(),
    };
    let error = on_start_response(response).unwrap_err();
    assert_eq!(error.kind, ErrorKind::InvalidData);
    assert_eq!(
        error.message,
        "unexpected response: AuthMessage { auth_message_type: Info, auth_message: \"hi\" }"
    );
}

#[test]
fn the_shell_comes_from_the_environment() {
    assert_eq!(session_shell(Some("/bin/fish".to_owned())), "/bin/fish");
    assert_eq!(session_shell(None), "/bin/sh");
}

#[test]
fn lines_lose_their_newlines() {
    assert_eq!(trim_newlines("ann\n"), "ann");
    assert_eq!(trim_newlines("a\nb\n\n"), "a\nb");
    assert_eq!(trim_newlines("ann\r\n"), "ann\r");
    assert_eq!(trim_newlines("\n"), "");
    assert_eq!(trim_newlines("\u{e9} "), "\u{e9} ");
}
