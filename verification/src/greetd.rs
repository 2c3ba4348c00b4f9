//! A stand-in for the login daemon, which knows one password.

use crate::greetd_client::{ClientActionModel, ExchangeModel, Phase, ResultModel};
use crate::protocol::{AuthMessageType, ErrorType, Request, RequestModel, Response, ResponseModel};
use crate::text::same_text;
use vstd::prelude::*;

verus! {

/// The password that is accepted.
pub const PASSWORD: &'static str = "password";

/// One connection to the daemon.
#[derive(Debug)]
pub struct Connection {
    username: Option<String>,
}

impl View for Connection {
    type V = Option<Seq<char>>;

    closed spec fn view(&self) -> Option<Seq<char>> {
        match self.username {
            Some(username) => Some(username@),
            None => None,
        }
    }
}

/// The user after a request: the one that the last session was created for.
pub open spec fn user_after(user: Option<Seq<char>>, request: RequestModel) -> Option<Seq<char>> {
    match request {
        RequestModel::CreateSession { username } => Some(username),
        _ => user,
    }
}

/// The reply to a request; `None` when the connection is closed instead.
pub open spec fn reply(request: RequestModel) -> Option<ResponseModel> {
    match request {
        RequestModel::CreateSession { .. } => Some(
            ResponseModel::AuthMessage {
                auth_message_type: AuthMessageType::Secret,
                auth_message: "Password"@,
            },
        ),
        RequestModel::PostAuthMessageResponse { response } => if response == Some(PASSWORD@) {
            Some(ResponseModel::Success)
        } else {
            Some(
                ResponseModel::Error {
                    error_type: ErrorType::AuthError,
                    description: "Authentication failure"@,
                },
            )
        },
        RequestModel::StartSession { .. } => Some(ResponseModel::Success),
        RequestModel::CancelSession => None,
    }
}

impl Connection {
    /// A connection on which no session has been created.
    pub fn new() -> (connection: Self)
        ensures
            connection@ is None,
    {
        Self { username: None }
    }

    /// The user for whom a session would be started.
    pub fn user(&self) -> (user: String)
        ensures
            user@ == match self@ {
                Some(username) => username,
                None => "<unknown>"@,
            },
    {
        match &self.username {
            Some(username) => username.clone(),
            None => "<unknown>".to_owned(),
        }
    }

    /// Takes a request and gives the reply, or `None` to close the connection.
    pub fn handle(&mut self, request: Request) -> (response: Option<Response>)
        ensures
            final(self)@ == user_after(old(self)@, request@),
            match (response, reply(request@)) {
                (Some(response), Some(expected)) => response@ == expected,
                (None, None) => true,
                _ => false,
            },
    {
        match request {
            Request::CreateSession { username } => {
                self.username = Some(username);
                Some(
                    Response::AuthMessage {
                        auth_message_type: AuthMessageType::Secret,
                        auth_message: "Password".to_owned(),
                    },
                )
            },
            Request::PostAuthMessageResponse { response } => {
                let accepted = match response {
                    Some(password) => same_text(password.as_str(), PASSWORD),
                    None => false,
                };
                if accepted {
                    Some(Response::Success)
                } else {
                    Some(
                        Response::Error {
                            error_type: ErrorType::AuthError,
                            description: "Authentication failure".to_owned(),
                        },
                    )
                }
            },
            Request::StartSession { .. } => Some(Response::Success),
            Request::CancelSession => None,
        }
    }
}

/// The request among some actions, if there is one; the last one if there are more.
pub open spec fn request_in(actions: Seq<ClientActionModel>) -> Option<RequestModel>
    decreases actions.len(),
{
    if actions.len() == 0 {
        None
    } else {
        match actions.last() {
            ClientActionModel::Send { request, .. } => Some(request),
            _ => request_in(actions.drop_last()),
        }
    }
}

/// What the greeter does when it has sent a request to this daemon, and goes on talking to it
/// for some turns.
pub open spec fn conversation(
    exchange: ExchangeModel,
    request: RequestModel,
    turns: nat,
) -> (Phase, Seq<ClientActionModel>)
    decreases turns,
{
    match reply(request) {
        Some(response) => if turns == 0 {
            (exchange.phase, Seq::empty())
        } else {
            let (phase, actions) = exchange.answer(response);
            match request_in(actions) {
                Some(next) => {
                    let (end, more) = conversation(
                        ExchangeModel { phase, ..exchange },
                        next,
                        (turns - 1) as nat,
                    );
                    (end, actions + more)
                },
                None => (phase, actions),
            }
        },
        None => (exchange.phase, Seq::empty()),
    }
}

/// With the right password any user gets a session, in three turns: the password is asked for,
/// it is accepted, and the session is started.
pub proof fn law_right_password_logs_in(username: Seq<char>, turns: nat)
    requires
        turns >= 3,
    ensures
        conversation(
            ExchangeModel { password: PASSWORD@, phase: Phase::Authenticating },
            RequestModel::CreateSession { username },
            turns,
        ) == (
            Phase::Over,
            seq![
                crate::greetd_client::posting(Some(PASSWORD@)),
                ClientActionModel::Report { result: ResultModel::AuthAccepted, required: true },
                ClientActionModel::Send {
                    request: crate::greetd_client::start_request(),
                    required: true,
                },
                ClientActionModel::Report { result: ResultModel::SessionStarted, required: true },
            ],
        ),
{
    let asked = ExchangeModel { password: PASSWORD@, phase: Phase::Authenticating };
    let accepted = ExchangeModel { password: PASSWORD@, phase: Phase::Starting };
    let start = crate::greetd_client::start_request();
    let post = RequestModel::PostAuthMessageResponse { response: Some(PASSWORD@) };
    let first = asked.answer(reply(RequestModel::CreateSession { username })->0).1;
    let second = asked.answer(ResponseModel::Success).1;
    let third = accepted.answer(ResponseModel::Success).1;
    assert(request_in(first) == Some(post));
    assert(request_in(second) == Some(start));
    assert(third.drop_last() =~= Seq::empty());
    assert(request_in(third) is None) by {
        reveal_with_fuel(request_in, 2);
    }
    assert(conversation(accepted, start, (turns - 2) as nat) == (Phase::Over, third));
    assert(conversation(asked, post, (turns - 1) as nat) == (Phase::Over, second + third));
    assert(first + (second + third) =~= seq![
        crate::greetd_client::posting(Some(PASSWORD@)),
        ClientActionModel::Report { result: ResultModel::AuthAccepted, required: true },
        ClientActionModel::Send { request: start, required: true },
        ClientActionModel::Report { result: ResultModel::SessionStarted, required: true },
    ]);
}

/// With any other password the login fails: it is refused, and the session is cancelled.
pub proof fn law_wrong_password_is_refused(username: Seq<char>, password: Seq<char>, turns: nat)
    requires
        turns >= 2,
        password != PASSWORD@,
    ensures
        conversation(
            ExchangeModel { password, phase: Phase::Authenticating },
            RequestModel::CreateSession { username },
            turns,
        ) == (
            Phase::Over,
            seq![crate::greetd_client::posting(Some(password))]
                + crate::greetd_client::calling_off(
                ResultModel::AuthFailure(
                    crate::greetd_client::error_line(
                        ErrorType::AuthError,
                        "Authentication failure"@,
                    ),
                ),
            ),
        ),
{
    let asked = ExchangeModel { password, phase: Phase::Authenticating };
    let post = RequestModel::PostAuthMessageResponse { response: Some(password) };
    let first = asked.answer(reply(RequestModel::CreateSession { username })->0).1;
    let second = asked.answer(reply(post)->0).1;
    assert(request_in(first) == Some(post));
    assert(request_in(second.drop_last()) == Some(RequestModel::CancelSession));
    assert(request_in(second) == Some(RequestModel::CancelSession));
    let over = ExchangeModel { phase: Phase::Over, ..asked };
    assert(conversation(over, RequestModel::CancelSession, (turns - 2) as nat) == (
        Phase::Over,
        Seq::<ClientActionModel>::empty(),
    ));
    assert(second + Seq::empty() =~= second);
    assert(conversation(asked, post, (turns - 1) as nat) == (Phase::Over, second));
}

/// The daemon asks for a password, starts every session, and hangs up on a cancel. It accepts one
/// answer to its question, and says of any other, and of none, that authentication failed.
pub proof fn law_daemon_replies(
    username: Seq<char>,
    answer: Option<Seq<char>>,
    cmd: Seq<Seq<char>>,
    env: Seq<Seq<char>>,
)
    ensures
        reply(RequestModel::CreateSession { username }) == Some(
            ResponseModel::AuthMessage {
                auth_message_type: AuthMessageType::Secret,
                auth_message: "Password"@,
            },
        ),
        reply(RequestModel::PostAuthMessageResponse { response: answer }) == Some(
            if answer == Some("password"@) {
                ResponseModel::Success
            } else {
                ResponseModel::Error {
                    error_type: ErrorType::AuthError,
                    description: "Authentication failure"@,
                }
            },
        ),
        reply(RequestModel::StartSession { cmd, env }) == Some(ResponseModel::Success),
        reply(RequestModel::CancelSession) is None,
{
}

/// The user of a connection is the one that a session was created for last.
pub proof fn law_last_user_counts(user: Option<Seq<char>>, request: RequestModel)
    ensures
        request matches RequestModel::CreateSession { username } ==> user_after(user, request)
            == Some(username),
        !(request is CreateSession) ==> user_after(user, request) == user,
{
}

} // verus!
