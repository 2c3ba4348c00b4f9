//! The login on a console.

use crate::greetd_client::format_error;
use crate::protocol::{AuthMessageType, ErrorType, Request, RequestModel, Response, ResponseModel};
use vstd::prelude::*;

verus! {

/// The program of a session when the environment names none.
pub const DEFAULT_SHELL: &'static str = "/bin/sh";

/// The kinds of errors in which a login on the console ends.
#[derive(Clone, Copy, Debug, PartialEq, Eq, Structural)]
pub enum ErrorKind {
    PermissionDenied,
    Other,
    InvalidData,
}

/// The error in which a login on the console ends.
#[derive(Debug)]
pub struct LoginError {
    pub kind: ErrorKind,
    pub message: String,
}

/// What to do about a response of the daemon.
#[derive(Debug)]
pub enum AuthStep {
    /// Ask the user, and post what they type; without echo, what they type is not shown.
    Ask { label: String, echo: bool },
    /// Print a line, to the error output if it is an error, and post no answer.
    Tell { line: String, is_error: bool },
    /// The user is accepted: send the request that starts the session.
    Start { request: Request },
    /// The user is refused: cancel the session, and end in the error.
    Refused { error: LoginError },
}

/// An error with its message as a character sequence.
pub struct LoginErrorModel {
    pub kind: ErrorKind,
    pub message: Seq<char>,
}

/// A step with its texts as character sequences.
pub enum AuthStepModel {
    Ask { label: Seq<char>, echo: bool },
    Tell { line: Seq<char>, is_error: bool },
    Start { request: RequestModel },
    Refused { error: LoginErrorModel },
}

impl View for LoginError {
    type V = LoginErrorModel;

    open spec fn view(&self) -> LoginErrorModel {
        LoginErrorModel { kind: self.kind, message: self.message@ }
    }
}

impl View for AuthStep {
    type V = AuthStepModel;

    open spec fn view(&self) -> AuthStepModel {
        match self {
            AuthStep::Ask { label, echo } => AuthStepModel::Ask { label: label@, echo: *echo },
            AuthStep::Tell { line, is_error } => AuthStepModel::Tell {
                line: line@,
                is_error: *is_error,
            },
            AuthStep::Start { request } => AuthStepModel::Start { request: request@ },
            AuthStep::Refused { error } => AuthStepModel::Refused { error: error@ },
        }
    }
}

/// What to do about a response while the daemon asks who is there.
pub open spec fn auth_step(response: ResponseModel, shell: Seq<char>) -> AuthStepModel {
    match response {
        ResponseModel::Success => AuthStepModel::Start {
            request: RequestModel::StartSession { cmd: seq![shell], env: Seq::empty() },
        },
        ResponseModel::AuthMessage { auth_message_type, auth_message } => match auth_message_type {
            AuthMessageType::Secret => AuthStepModel::Ask {
                label: auth_message + ": "@,
                echo: false,
            },
            AuthMessageType::Visible => AuthStepModel::Ask {
                label: auth_message + ": "@,
                echo: true,
            },
            AuthMessageType::Info => AuthStepModel::Tell {
                line: "Info: "@ + auth_message,
                is_error: false,
            },
            AuthMessageType::Error => AuthStepModel::Tell {
                line: "Auth error: "@ + auth_message,
                is_error: true,
            },
        },
        ResponseModel::Error { error_type, description } => AuthStepModel::Refused {
            error: LoginErrorModel {
                kind: ErrorKind::PermissionDenied,
                message: crate::greetd_client::error_line(error_type, description),
            },
        },
    }
}

/// How the login ends, by the response to the request that starts the session.
pub open spec fn start_result(response: ResponseModel) -> Result<(), LoginErrorModel> {
    match response {
        ResponseModel::Success => Ok(()),
        ResponseModel::Error { description, .. } => Err(
            LoginErrorModel {
                kind: ErrorKind::Other,
                message: "start_session failed: "@ + description,
            },
        ),
        ResponseModel::AuthMessage { .. } => Err(
            LoginErrorModel {
                kind: ErrorKind::InvalidData,
                message: "unexpected response: "@ + response.described(),
            },
        ),
    }
}

/// A text without the newlines at its end.
pub open spec fn trimmed(text: Seq<char>) -> Seq<char>
    decreases text.len(),
{
    if text.len() > 0 && text.last() == '\n' {
        trimmed(text.drop_last())
    } else {
        text
    }
}

/// What to do about a response while the daemon asks who is there.
pub fn on_auth_response(response: Response, shell: &str) -> (step: AuthStep)
    ensures
        step@ == auth_step(response@, shell@),
{
    match response {
        Response::Success => {
            let mut cmd: Vec<String> = Vec::new();
            cmd.push(shell.to_owned());
            let env: Vec<String> = Vec::new();
            assert(crate::text::texts(cmd@) =~= seq![shell@]);
            assert(crate::text::texts(env@) =~= Seq::empty());
            AuthStep::Start { request: Request::StartSession { cmd, env } }
        },
        Response::AuthMessage { auth_message_type, auth_message } => match auth_message_type {
            AuthMessageType::Secret => AuthStep::Ask {
                label: auth_message.concat(": "),
                echo: false,
            },
            AuthMessageType::Visible => AuthStep::Ask {
                label: auth_message.concat(": "),
                echo: true,
            },
            AuthMessageType::Info => AuthStep::Tell {
                line: "Info: ".to_owned().concat(auth_message.as_str()),
                is_error: false,
            },
            AuthMessageType::Error => AuthStep::Tell {
                line: "Auth error: ".to_owned().concat(auth_message.as_str()),
                is_error: true,
            },
        },
        Response::Error { error_type, description } => AuthStep::Refused {
            error: LoginError {
                kind: ErrorKind::PermissionDenied,
                message: format_error(error_type, description.as_str()),
            },
        },
    }
}

/// How the login ends, by the response to the request that starts the session.
pub fn on_start_response(response: Response) -> (result: Result<(), LoginError>)
    ensures
        match (result, start_result(response@)) {
            (Ok(_), Ok(_)) => true,
            (Err(error), Err(expected)) => error@ == expected,
            _ => false,
        },
{
    match response {
        Response::Success => Ok(()),
        Response::Error { error_type: _, description } => Err(
            LoginError {
                kind: ErrorKind::Other,
                message: "start_session failed: ".to_owned().concat(description.as_str()),
            },
        ),
        other => Err(
            LoginError {
                kind: ErrorKind::InvalidData,
                message: "unexpected response: ".to_owned().concat(other.describe().as_str()),
            },
        ),
    }
}

/// The program of the session: the shell that the environment names, if it names one.
pub fn session_shell(shell: Option<String>) -> (program: String)
    ensures
        program@ == match shell {
            Some(shell) => shell@,
            None => DEFAULT_SHELL@,
        },
{
    match shell {
        Some(shell) => shell,
        None => DEFAULT_SHELL.to_owned(),
    }
}

/// A line as the user meant it, without the newline that ends it.
pub fn trim_newlines(line: &str) -> (text: String)
    ensures
        text@ == trimmed(line@),
{
    let mut n: usize = line.unicode_len();
    assert(line@.take(n as int) =~= line@);
    while n > 0 && line.get_char(n - 1) == '\n'
        invariant
            n <= line@.len(),
            trimmed(line@) == trimmed(line@.take(n as int)),
        decreases n,
    {
        assert(line@.take(n as int).drop_last() =~= line@.take(n - 1));
        n = n - 1;
    }
    line.substring_char(0, n).to_owned()
}

/// Trimming takes away newlines, all of those at the end, and nothing else.
pub proof fn law_trimmed(text: Seq<char>)
    ensures
        trimmed(text).is_prefix_of(text),
        trimmed(text).len() > 0 ==> trimmed(text).last() != '\n',
        forall|i: int| trimmed(text).len() <= i < text.len() ==> text[i] == '\n',
    decreases text.len(),
{
    if text.len() > 0 && text.last() == '\n' {
        let shorter = text.drop_last();
        law_trimmed(shorter);
        assert forall|i: int| trimmed(text).len() <= i < text.len() implies text[i] == '\n' by {
            if i < shorter.len() {
                assert(shorter[i] == text[i]);
            }
        }
        assert(trimmed(text) =~= text.subrange(0, trimmed(text).len() as int)) by {
            assert(trimmed(shorter) =~= shorter.subrange(0, trimmed(shorter).len() as int));
        }
    } else {
        assert(text =~= text.subrange(0, text.len() as int));
    }
}

/// What the user types unseen is asked for exactly when the daemon asks for a secret.
pub proof fn law_secrets_are_not_echoed(response: ResponseModel, shell: Seq<char>)
    ensures
        (auth_step(response, shell) matches AuthStepModel::Ask { echo, .. } && !echo) <==> (
        response matches ResponseModel::AuthMessage { auth_message_type, .. } && auth_message_type
            is Secret),
{
}

/// A session is only asked for when the daemon has accepted the user.
pub proof fn law_console_starts_only_on_success(response: ResponseModel, shell: Seq<char>)
    ensures
        auth_step(response, shell) is Start <==> response is Success,
{
}

/// What the user is asked is the daemon's question, and what they are told is its message, with a
/// word before it that says what it is. Errors go to the error output.
pub proof fn law_console_shows_the_message(
    auth_message_type: AuthMessageType,
    auth_message: Seq<char>,
    shell: Seq<char>,
)
    ensures
        ({
            let step = auth_step(
                ResponseModel::AuthMessage { auth_message_type, auth_message },
                shell,
            );
            match auth_message_type {
                AuthMessageType::Visible => step == (AuthStepModel::Ask {
                    label: auth_message + seq![':', ' '],
                    echo: true,
                }),
                AuthMessageType::Secret => step == (AuthStepModel::Ask {
                    label: auth_message + seq![':', ' '],
                    echo: false,
                }),
                AuthMessageType::Info => step == (AuthStepModel::Tell {
                    line: "Info: "@ + auth_message,
                    is_error: false,
                }),
                AuthMessageType::Error => step == (AuthStepModel::Tell {
                    line: "Auth error: "@ + auth_message,
                    is_error: true,
                }),
            }
        }),
{
    reveal_strlit(": ");
    assert(": "@ =~= seq![':', ' ']);
}

/// An accepted user gets a session of the shell and nothing else. A refused one gets the daemon's
/// error, whatever its type.
pub proof fn law_console_session(shell: Seq<char>, error_type: ErrorType, description: Seq<char>)
    ensures
        auth_step(ResponseModel::Success, shell) == (AuthStepModel::Start {
            request: RequestModel::StartSession { cmd: seq![shell], env: Seq::empty() },
        }),
        auth_step(ResponseModel::Error { error_type, description }, shell) == (
        AuthStepModel::Refused {
            error: LoginErrorModel {
                kind: ErrorKind::PermissionDenied,
                message: (if error_type is AuthError {
                    "AuthError: "@
                } else {
                    "Error: "@
                }) + description,
            },
        }),
{
    reveal_strlit("AuthError");
    reveal_strlit("Error");
    reveal_strlit(": ");
    reveal_strlit("AuthError: ");
    reveal_strlit("Error: ");
    assert("AuthError"@ + ": "@ =~= "AuthError: "@);
    assert("Error"@ + ": "@ =~= "Error: "@);
}

/// The login ends well exactly when the session has started. Otherwise the error says what came
/// instead.
pub proof fn law_console_ends(response: ResponseModel)
    ensures
        start_result(response) is Ok <==> response is Success,
        response matches ResponseModel::Error { description, .. } ==> start_result(response) == Err::<
            (),
            LoginErrorModel,
        >(
            LoginErrorModel {
                kind: ErrorKind::Other,
                message: "start_session failed: "@ + description,
            },
        ),
        response is AuthMessage ==> start_result(response) == Err::<(), LoginErrorModel>(
            LoginErrorModel {
                kind: ErrorKind::InvalidData,
                message: "unexpected response: "@ + response.described(),
            },
        ),
{
}

} // verus!
