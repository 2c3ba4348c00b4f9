//! The greeter's side of a login with the daemon.

use crate::login::LoginEvent;
use crate::protocol::{AuthMessageType, ErrorType, Request, RequestModel, Response, ResponseModel};
use crate::text::quoted;
use vstd::prelude::*;

verus! {

/// The program that a session runs.
pub const SESSION_CMD: &'static str = "/bin/bash";

#[derive(Debug)]
pub enum GreetdCommand {
    Authenticate { username: String, password: String },
}

#[derive(Debug)]
pub enum GreetdResult {
    AuthAccepted,
    AuthFailure(String),
    SessionStarted,
    SessionFailed(String),
}

/// How far a login has come.
#[derive(Clone, Copy, Debug, PartialEq, Eq, Structural)]
pub enum Phase {
    /// The daemon asks who is there.
    Authenticating,
    /// The daemon has been told to start the session.
    Starting,
    /// Nothing more is to be said.
    Over,
}

/// A thing to do for a login. The login ends in an error when a required thing cannot be done;
/// what is not required may fail without notice.
#[derive(Debug)]
pub enum ClientAction {
    /// Send a request to the daemon.
    Send { request: Request, required: bool },
    /// Tell the dialogue.
    Report { result: GreetdResult, required: bool },
    /// End the login in an error.
    Fail(String),
}

/// A login with the daemon, from the creation of the session to its start.
#[derive(Debug)]
pub struct Exchange {
    password: String,
    phase: Phase,
}

/// A result with its texts as character sequences.
pub enum ResultModel {
    AuthAccepted,
    AuthFailure(Seq<char>),
    SessionStarted,
    SessionFailed(Seq<char>),
}

/// An action with its texts as character sequences.
pub enum ClientActionModel {
    Send { request: RequestModel, required: bool },
    Report { result: ResultModel, required: bool },
    Fail(Seq<char>),
}

/// An exchange with its password as a character sequence.
pub struct ExchangeModel {
    pub password: Seq<char>,
    pub phase: Phase,
}

impl View for GreetdResult {
    type V = ResultModel;

    open spec fn view(&self) -> ResultModel {
        match self {
            GreetdResult::AuthAccepted => ResultModel::AuthAccepted,
            GreetdResult::AuthFailure(message) => ResultModel::AuthFailure(message@),
            GreetdResult::SessionStarted => ResultModel::SessionStarted,
            GreetdResult::SessionFailed(message) => ResultModel::SessionFailed(message@),
        }
    }
}

impl View for ClientAction {
    type V = ClientActionModel;

    open spec fn view(&self) -> ClientActionModel {
        match self {
            ClientAction::Send { request, required } => ClientActionModel::Send {
                request: request@,
                required: *required,
            },
            ClientAction::Report { result, required } => ClientActionModel::Report {
                result: result@,
                required: *required,
            },
            ClientAction::Fail(message) => ClientActionModel::Fail(message@),
        }
    }
}

impl View for Exchange {
    type V = ExchangeModel;

    closed spec fn view(&self) -> ExchangeModel {
        ExchangeModel { password: self.password@, phase: self.phase }
    }
}

/// The views of a sequence of actions.
pub open spec fn action_models(actions: Seq<ClientAction>) -> Seq<ClientActionModel> {
    Seq::new(actions.len(), |i: int| actions[i]@)
}

impl ResultModel {
    /// What a result is to the dialogue.
    pub open spec fn login_event(self) -> LoginEvent {
        match self {
            ResultModel::AuthAccepted => LoginEvent::AuthAccepted,
            ResultModel::AuthFailure(_) => LoginEvent::AuthFailure,
            ResultModel::SessionStarted => LoginEvent::SessionStarted,
            ResultModel::SessionFailed(_) => LoginEvent::SessionFailure,
        }
    }
}

/// An error of the daemon in one line.
pub open spec fn error_line(error_type: ErrorType, description: Seq<char>) -> Seq<char> {
    error_type.spec_name() + ": "@ + description
}

/// The request that asks for the session.
pub open spec fn start_request() -> RequestModel {
    RequestModel::StartSession { cmd: seq![SESSION_CMD@], env: Seq::empty() }
}

/// Calls the login off, and tells why.
pub open spec fn calling_off(result: ResultModel) -> Seq<ClientActionModel> {
    seq![
        ClientActionModel::Send { request: RequestModel::CancelSession, required: false },
        ClientActionModel::Report { result, required: false },
    ]
}

impl ExchangeModel {
    /// The answer to a response of the daemon: the phase that follows, and what to do, in order.
    pub open spec fn answer(self, response: ResponseModel) -> (Phase, Seq<ClientActionModel>) {
        match (self.phase, response) {
            (
                Phase::Authenticating,
                ResponseModel::AuthMessage { auth_message_type, auth_message },
            ) => match auth_message_type {
                AuthMessageType::Secret | AuthMessageType::Visible => (
                    Phase::Authenticating,
                    seq![posting(Some(self.password))],
                ),
                AuthMessageType::Info => (Phase::Authenticating, seq![posting(None)]),
                AuthMessageType::Error => (
                    Phase::Over,
                    calling_off(ResultModel::AuthFailure(auth_message)),
                ),
            },
            (Phase::Authenticating, ResponseModel::Error { error_type, description }) => (
                Phase::Over,
                calling_off(ResultModel::AuthFailure(error_line(error_type, description))),
            ),
            (Phase::Authenticating, ResponseModel::Success) => (
                Phase::Starting,
                seq![
                    ClientActionModel::Report { result: ResultModel::AuthAccepted, required: true },
                    ClientActionModel::Send { request: start_request(), required: true },
                ],
            ),
            (Phase::Starting, ResponseModel::Success) => (
                Phase::Over,
                seq![
                    ClientActionModel::Report {
                        result: ResultModel::SessionStarted,
                        required: true,
                    },
                ],
            ),
            (Phase::Starting, ResponseModel::Error { error_type, description }) => (
                Phase::Over,
                calling_off(
                    ResultModel::SessionFailed(
                        "start_session failed: "@ + error_line(error_type, description),
                    ),
                ),
            ),
            (Phase::Starting, ResponseModel::AuthMessage { .. }) => (
                Phase::Over,
                seq![
                    ClientActionModel::Fail(
                        "unexpected greetd response after start_session: "@ + response.described(),
                    ),
                ],
            ),
            (Phase::Over, _) => (Phase::Over, Seq::empty()),
        }
    }
}

/// Answers a question of the daemon.
pub open spec fn posting(response: Option<Seq<char>>) -> ClientActionModel {
    ClientActionModel::Send {
        request: RequestModel::PostAuthMessageResponse { response },
        required: true,
    }
}

impl GreetdResult {
    /// What a result is to the dialogue.
    pub fn login_event(&self) -> (event: LoginEvent)
        ensures
            event == self@.login_event(),
    {
        match self {
            GreetdResult::AuthAccepted => LoginEvent::AuthAccepted,
            GreetdResult::AuthFailure(_) => LoginEvent::AuthFailure,
            GreetdResult::SessionStarted => LoginEvent::SessionStarted,
            GreetdResult::SessionFailed(_) => LoginEvent::SessionFailure,
        }
    }
}

/// The result of a login that ended in an error.
pub fn login_error(error: &str) -> (result: GreetdResult)
    ensures
        result@ == ResultModel::AuthFailure(error@),
{
    GreetdResult::AuthFailure(error.to_owned())
}

/// The result of a login for which the daemon could not be reached, by the name of its socket as
/// it is to be shown.
pub fn connect_error_at(shown_path: &str, error: &str) -> (result: GreetdResult)
    ensures
        result@ == ResultModel::AuthFailure(
            "connect GREETD_SOCK "@ + shown_path@ + ": "@ + error@,
        ),
{
    let mut message = "connect GREETD_SOCK ".to_owned();
    message.append(shown_path);
    message.append(": ");
    message.append(error);
    GreetdResult::AuthFailure(message)
}

/// The result of a login for which the daemon could not be reached.
pub fn connect_error(sock_path: &str, error: &str) -> (result: GreetdResult)
    ensures
        result@ == ResultModel::AuthFailure(
            "connect GREETD_SOCK "@ + crate::text::debug_text(sock_path@) + ": "@ + error@,
        ),
{
    connect_error_at(quoted(sock_path).as_str(), error)
}

/// An error of the daemon in one line.
pub fn format_error(error_type: ErrorType, description: &str) -> (line: String)
    ensures
        line@ == error_line(error_type, description@),
{
    let mut line = error_type.name().to_owned();
    line.append(": ");
    line.append(description);
    line
}

impl Exchange {
    /// Begins a login: the exchange, and the request to open it with.
    pub fn begin(username: &str, password: &str) -> (result: (Exchange, Request))
        ensures
            result.0@ == (ExchangeModel { password: password@, phase: Phase::Authenticating }),
            result.1@ == (RequestModel::CreateSession { username: username@ }),
    {
        (
            Exchange { password: password.to_owned(), phase: Phase::Authenticating },
            Request::CreateSession { username: username.to_owned() },
        )
    }

    /// Whether the login has ended.
    pub fn is_over(&self) -> (over: bool)
        ensures
            over == (self@.phase is Over),
    {
        match self.phase {
            Phase::Over => true,
            _ => false,
        }
    }

    /// Takes a response of the daemon: what to do about it, in order.
    pub fn on_response(&mut self, response: Response) -> (actions: Vec<ClientAction>)
        ensures
            final(self)@.password == old(self)@.password,
            (final(self)@.phase, action_models(actions@)) == old(self)@.answer(response@),
    {
        let mut actions: Vec<ClientAction> = Vec::new();
        let ghost expected = self@.answer(response@);
        match (self.phase, response) {
            (
                Phase::Authenticating,
                Response::AuthMessage { auth_message_type, auth_message },
            ) => match auth_message_type {
                AuthMessageType::Secret | AuthMessageType::Visible => {
                    let response = Some(self.password.clone());
                    actions.push(
                        ClientAction::Send {
                            request: Request::PostAuthMessageResponse { response },
                            required: true,
                        },
                    );
                },
                AuthMessageType::Info => {
                    actions.push(
                        ClientAction::Send {
                            request: Request::PostAuthMessageResponse { response: None },
                            required: true,
                        },
                    );
                },
                AuthMessageType::Error => {
                    self.phase = Phase::Over;
                    call_off(GreetdResult::AuthFailure(auth_message), &mut actions);
                },
            },
            (Phase::Authenticating, Response::Error { error_type, description }) => {
                self.phase = Phase::Over;
                let message = format_error(error_type, description.as_str());
                call_off(GreetdResult::AuthFailure(message), &mut actions);
            },
            (Phase::Authenticating, Response::Success) => {
                self.phase = Phase::Starting;
                actions.push(
                    ClientAction::Report { result: GreetdResult::AuthAccepted, required: true },
                );
                let mut cmd: Vec<String> = Vec::new();
                cmd.push(SESSION_CMD.to_owned());
                let env: Vec<String> = Vec::new();
                assert(crate::text::texts(cmd@) =~= seq![SESSION_CMD@]);
                assert(crate::text::texts(env@) =~= Seq::empty());
                actions.push(
                    ClientAction::Send {
                        request: Request::StartSession { cmd, env },
                        required: true,
                    },
                );
            },
            (Phase::Starting, Response::Success) => {
                self.phase = Phase::Over;
                actions.push(
                    ClientAction::Report { result: GreetdResult::SessionStarted, required: true },
                );
            },
            (Phase::Starting, Response::Error { error_type, description }) => {
                self.phase = Phase::Over;
                let mut message = "start_session failed: ".to_owned();
                message.append(format_error(error_type, description.as_str()).as_str());
                call_off(GreetdResult::SessionFailed(message), &mut actions);
            },
            (Phase::Starting, other) => {
                self.phase = Phase::Over;
                let mut message = "unexpected greetd response after start_session: ".to_owned();
                message.append(other.describe().as_str());
                actions.push(ClientAction::Fail(message));
            },
            (Phase::Over, _) => {},
        }
        assert(action_models(actions@) =~= expected.1);
        actions
    }
}

/// Calls the login off, and tells why.
fn call_off(result: GreetdResult, actions: &mut Vec<ClientAction>)
    ensures
        action_models(final(actions)@) == action_models(old(actions)@) + calling_off(result@),
{
    actions.push(ClientAction::Send { request: Request::CancelSession, required: false });
    actions.push(ClientAction::Report { result, required: false });
    assert(action_models(actions@) =~= action_models(old(actions)@) + calling_off(result@));
}

impl ExchangeModel {
    /// All that is done for a sequence of responses: the phase that follows, and the actions.
    pub open spec fn run(self, responses: Seq<ResponseModel>) -> (Phase, Seq<ClientActionModel>)
        decreases responses.len(),
    {
        if responses.len() == 0 {
            (self.phase, Seq::empty())
        } else {
            let (phase, actions) = self.run(responses.drop_last());
            let (next, more) = (ExchangeModel { phase, ..self }).answer(responses.last());
            (next, actions + more)
        }
    }
}

/// An action by which a login comes to its end.
pub open spec fn is_verdict(action: ClientActionModel) -> bool {
    match action {
        ClientActionModel::Send { .. } => false,
        ClientActionModel::Report { result, .. } => !(result is AuthAccepted),
        ClientActionModel::Fail(_) => true,
    }
}

/// The number of actions by which a login comes to its end.
pub open spec fn verdicts(actions: Seq<ClientActionModel>) -> nat
    decreases actions.len(),
{
    if actions.len() == 0 {
        0
    } else if is_verdict(actions.last()) {
        verdicts(actions.drop_last()) + 1
    } else {
        verdicts(actions.drop_last())
    }
}

/// What the dialogue is told, in order.
pub open spec fn reported(actions: Seq<ClientActionModel>) -> Seq<LoginEvent>
    decreases actions.len(),
{
    if actions.len() == 0 {
        Seq::empty()
    } else {
        match actions.last() {
            ClientActionModel::Report { result, .. } => reported(actions.drop_last()).push(
                result.login_event(),
            ),
            _ => reported(actions.drop_last()),
        }
    }
}

/// The password is only ever sent to answer a question of the daemon.
pub proof fn law_password_answers_a_question(
    exchange: ExchangeModel,
    response: ResponseModel,
    i: int,
    sent: Seq<char>,
)
    requires
        0 <= i < exchange.answer(response).1.len(),
        exchange.answer(response).1[i] == posting(Some(sent)),
    ensures
        sent == exchange.password,
        exchange.phase is Authenticating,
        response matches ResponseModel::AuthMessage { auth_message_type, .. } && (auth_message_type
            is Secret || auth_message_type is Visible),
{
}

/// A session is only asked for once, when the daemon has accepted the user, and the dialogue
/// has been told so before.
pub proof fn law_session_only_after_acceptance(
    exchange: ExchangeModel,
    responses: Seq<ResponseModel>,
    i: int,
)
    requires
        exchange.phase is Authenticating,
        0 <= i < exchange.run(responses).1.len(),
        exchange.run(responses).1[i] matches ClientActionModel::Send {
            request: RequestModel::StartSession { .. },
            ..
        },
    ensures
        i > 0,
        exchange.run(responses).1[i - 1] == (ClientActionModel::Report {
            result: ResultModel::AuthAccepted,
            required: true,
        }),
        responses.contains(ResponseModel::Success),
        !(exchange.run(responses).0 is Authenticating),
        forall|j: int|
            0 <= j < exchange.run(responses).1.len() && j != i ==> !(#[trigger] exchange.run(
                responses,
            ).1[j] matches ClientActionModel::Send {
                request: RequestModel::StartSession { .. },
                ..
            }),
    decreases responses.len(),
{
    lemma_session_requests(exchange, responses);
    let before = responses.drop_last();
    let (phase, actions) = exchange.run(before);
    if i < actions.len() {
        law_session_only_after_acceptance(exchange, before, i);
        let k = choose|k: int| 0 <= k < before.len() && before[k] is Success;
        assert(responses[k] is Success);
        assert forall|j: int|
            0 <= j < exchange.run(responses).1.len() && j != i implies !(#[trigger] exchange.run(
            responses,
        ).1[j] matches ClientActionModel::Send {
            request: RequestModel::StartSession { .. },
            ..
        }) by {
            if j < actions.len() {
                assert(exchange.run(responses).1[j] == actions[j]);
            }
        }
    } else {
        lemma_session_requests(exchange, before);
        assert(responses.last() is Success);
        assert(responses[responses.len() - 1] is Success);
    }
}

/// While a user is not accepted, no session is asked for.
proof fn lemma_session_requests(exchange: ExchangeModel, responses: Seq<ResponseModel>)
    requires
        exchange.phase is Authenticating,
    ensures
        exchange.run(responses).0 is Authenticating ==> forall|j: int|
            0 <= j < exchange.run(responses).1.len() ==> !(#[trigger] exchange.run(
                responses,
            ).1[j] matches ClientActionModel::Send {
                request: RequestModel::StartSession { .. },
                ..
            }),
    decreases responses.len(),
{
    if responses.len() > 0 {
        lemma_session_requests(exchange, responses.drop_last());
        let (phase, actions) = exchange.run(responses.drop_last());
        let (next, more) = (ExchangeModel { phase, ..exchange }).answer(responses.last());
        if exchange.run(responses).0 is Authenticating {
            assert forall|j: int| 0 <= j < exchange.run(responses).1.len() implies !(
            #[trigger] exchange.run(responses).1[j] matches ClientActionModel::Send {
                request: RequestModel::StartSession { .. },
                ..
            }) by {
                if j < actions.len() {
                    assert(exchange.run(responses).1[j] == actions[j]);
                } else {
                    assert(exchange.run(responses).1[j] == more[j - actions.len()]);
                }
            }
        }
    }
}

proof fn lemma_verdicts_add(first: Seq<ClientActionModel>, second: Seq<ClientActionModel>)
    ensures
        verdicts(first + second) == verdicts(first) + verdicts(second),
    decreases second.len(),
{
    if second.len() == 0 {
        assert(first + second =~= first);
    } else {
        lemma_verdicts_add(first, second.drop_last());
        assert((first + second).drop_last() =~= first + second.drop_last());
    }
}

/// A login comes to its end exactly once: there is one verdict when it is over, and none before.
pub proof fn law_one_verdict(exchange: ExchangeModel, responses: Seq<ResponseModel>)
    requires
        exchange.phase is Authenticating,
    ensures
        verdicts(exchange.run(responses).1) == if exchange.run(responses).0 is Over {
            1nat
        } else {
            0
        },
    decreases responses.len(),
{
    if responses.len() > 0 {
        law_one_verdict(exchange, responses.drop_last());
        let (phase, actions) = exchange.run(responses.drop_last());
        let (next, more) = (ExchangeModel { phase, ..exchange }).answer(responses.last());
        lemma_verdicts_add(actions, more);
        reveal_with_fuel(verdicts, 3);
    }
}

proof fn lemma_reported_add(first: Seq<ClientActionModel>, second: Seq<ClientActionModel>)
    ensures
        reported(first + second) == reported(first) + reported(second),
    decreases second.len(),
{
    if second.len() == 0 {
        assert(first + second =~= first);
        assert(reported(first) + reported(second) =~= reported(first));
    } else {
        lemma_reported_add(first, second.drop_last());
        assert((first + second).drop_last() =~= first + second.drop_last());
        assert(reported(first + second) =~= reported(first) + reported(second));
    }
}

/// Whether a login was ended in an error.
pub open spec fn failed(actions: Seq<ClientActionModel>) -> bool {
    exists|i: int| 0 <= i < actions.len() && #[trigger] actions[i] is Fail
}

/// The dialogue keeps step with the daemon. It waits while the daemon asks questions, it shows
/// that the session is starting when the user is accepted, and when the login is over it shows
/// success or failure, unless the login was ended in an error.
pub proof fn law_dialogue_keeps_step(
    exchange: ExchangeModel,
    responses: Seq<ResponseModel>,
    username: Seq<char>,
)
    requires
        exchange.phase is Authenticating,
    ensures
        ({
            let (phase, actions) = exchange.run(responses);
            let state = crate::login::after(
                crate::login::LoginModel::Authenticating { username },
                reported(actions),
            );
            match phase {
                Phase::Authenticating => state == (crate::login::LoginModel::Authenticating {
                    username,
                }),
                Phase::Starting => state == (crate::login::LoginModel::StartingSession {
                    username,
                }),
                Phase::Over => failed(actions) || state is Success || state == (
                crate::login::LoginModel::Failure { username }),
            }
        }),
    decreases responses.len(),
{
    let start = crate::login::LoginModel::Authenticating { username };
    if responses.len() > 0 {
        let before = responses.drop_last();
        law_dialogue_keeps_step(exchange, before, username);
        let (phase, actions) = exchange.run(before);
        let (next, more) = (ExchangeModel { phase, ..exchange }).answer(responses.last());
        lemma_reported_add(actions, more);
        crate::login::lemma_after_joins(start, reported(actions), reported(more));
        lemma_answer_reports((ExchangeModel { phase, ..exchange }), responses.last());
        if failed(actions) {
            let i = choose|i: int| 0 <= i < actions.len() && #[trigger] actions[i] is Fail;
            assert((actions + more)[i] is Fail);
        }
        if more.len() == 1 && more[0] is Fail {
            assert((actions + more)[actions.len() as int] is Fail);
        }
        let state = crate::login::after(start, reported(actions));
        reveal_with_fuel(crate::login::after, 3);
    }
}

/// What one answer tells the dialogue: at most one thing.
proof fn lemma_answer_reports(exchange: ExchangeModel, response: ResponseModel)
    ensures
        ({
            let (next, more) = exchange.answer(response);
            reported(more) =~= match (exchange.phase, next) {
                (Phase::Authenticating, Phase::Starting) => seq![LoginEvent::AuthAccepted],
                (Phase::Authenticating, Phase::Over) => seq![LoginEvent::AuthFailure],
                (Phase::Starting, Phase::Over) => match response {
                    ResponseModel::Success => seq![LoginEvent::SessionStarted],
                    ResponseModel::Error { .. } => seq![LoginEvent::SessionFailure],
                    ResponseModel::AuthMessage { .. } => Seq::empty(),
                },
                _ => Seq::empty(),
            }
        }),
{
    reveal_with_fuel(reported, 3);
    let (next, more) = exchange.answer(response);
    if more.len() == 1 {
        assert(more.drop_last() =~= Seq::empty());
    } else if more.len() == 2 {
        assert(more.drop_last().drop_last() =~= Seq::empty());
    }
}

/// A login that ends in an error before the user is accepted shows as a failure.
pub proof fn law_error_before_acceptance_shows(
    exchange: ExchangeModel,
    responses: Seq<ResponseModel>,
    username: Seq<char>,
)
    requires
        exchange.phase is Authenticating,
        exchange.run(responses).0 is Authenticating,
    ensures
        crate::login::after(
            crate::login::LoginModel::Authenticating { username },
            reported(exchange.run(responses).1),
        ).on(LoginEvent::AuthFailure).state == (crate::login::LoginModel::Failure { username }),
{
    law_dialogue_keeps_step(exchange, responses, username);
}

/// Any error of the daemon, of whatever type, ends a login that is not over: the session is
/// cancelled, and the dialogue hears of a failed login or, once the user is accepted, of a session
/// that did not start. The reason names the type and gives the daemon's description.
pub proof fn law_errors_end_the_login(
    exchange: ExchangeModel,
    error_type: ErrorType,
    description: Seq<char>,
)
    requires
        !(exchange.phase is Over),
    ensures
        ({
            let (phase, actions) = exchange.answer(ResponseModel::Error { error_type, description });
            let reason = (if error_type is AuthError {
                "AuthError: "@
            } else {
                "Error: "@
            }) + description;
            &&& phase is Over
            &&& actions.len() == 2
            &&& actions[0] == (ClientActionModel::Send {
                request: RequestModel::CancelSession,
                required: false,
            })
            &&& actions[1] == (ClientActionModel::Report {
                result: if exchange.phase is Authenticating {
                    ResultModel::AuthFailure(reason)
                } else {
                    ResultModel::SessionFailed("start_session failed: "@ + reason)
                },
                required: false,
            })
        }),
{
    reveal_strlit("AuthError");
    reveal_strlit("Error");
    reveal_strlit(": ");
    reveal_strlit("AuthError: ");
    reveal_strlit("Error: ");
    assert("AuthError"@ + ": "@ =~= "AuthError: "@);
    assert("Error"@ + ": "@ =~= "Error: "@);
}

/// While the daemon asks who is there, each of its messages is answered, and the login goes on: a
/// question with the password, and information with nothing. An error among them ends the login as
/// a failure with that message.
pub proof fn law_messages_are_answered(
    exchange: ExchangeModel,
    auth_message_type: AuthMessageType,
    auth_message: Seq<char>,
)
    requires
        exchange.phase is Authenticating,
    ensures
        ({
            let (phase, actions) = exchange.answer(
                ResponseModel::AuthMessage { auth_message_type, auth_message },
            );
            if auth_message_type is Error {
                &&& phase is Over
                &&& actions.len() == 2
                &&& actions[0] == (ClientActionModel::Send {
                    request: RequestModel::CancelSession,
                    required: false,
                })
                &&& actions[1] == (ClientActionModel::Report {
                    result: ResultModel::AuthFailure(auth_message),
                    required: false,
                })
            } else {
                &&& phase is Authenticating
                &&& actions.len() == 1
                &&& actions[0] == (ClientActionModel::Send {
                    request: RequestModel::PostAuthMessageResponse {
                        response: if auth_message_type is Info {
                            None
                        } else {
                            Some(exchange.password)
                        },
                    },
                    required: true,
                })
            }
        }),
{
}

/// An accepted user is reported, and a session of the shell is asked for. A session that has
/// started is reported, and nothing is left to do.
pub proof fn law_success_leads_on(exchange: ExchangeModel)
    ensures
        ({
            let (phase, actions) = exchange.answer(ResponseModel::Success);
            &&& exchange.phase is Authenticating ==> phase is Starting && actions == seq![
                ClientActionModel::Report { result: ResultModel::AuthAccepted, required: true },
                ClientActionModel::Send {
                    request: RequestModel::StartSession {
                        cmd: seq!["/bin/bash"@],
                        env: Seq::empty(),
                    },
                    required: true,
                },
            ]
            &&& exchange.phase is Starting ==> phase is Over && actions == seq![
                ClientActionModel::Report { result: ResultModel::SessionStarted, required: true },
            ]
        }),
{
}

/// A message of the daemon after it was told to start the session ends the login in an error that
/// shows the message. Once a login is over, nothing more is done.
pub proof fn law_late_messages(exchange: ExchangeModel, response: ResponseModel)
    ensures
        exchange.phase is Starting && response is AuthMessage ==> exchange.answer(response) == (
            Phase::Over,
            seq![
                ClientActionModel::Fail(
                    "unexpected greetd response after start_session: "@ + response.described(),
                ),
            ],
        ),
        exchange.phase is Over ==> exchange.answer(response) == (
            Phase::Over,
            Seq::<ClientActionModel>::empty(),
        ),
{
}

/// Every response but a question and information brings a login nearer to its end.
pub proof fn law_login_never_hangs(exchange: ExchangeModel, response: ResponseModel)
    requires
        !(exchange.phase is Over),
    ensures
        exchange.phase is Starting ==> exchange.answer(response).0 is Over,
        exchange.phase is Authenticating && exchange.answer(response).0 is Authenticating ==> (
        response matches ResponseModel::AuthMessage { auth_message_type, .. } && !(auth_message_type
            is Error)),
        exchange.answer(response).1.len() > 0,
{
}

/// The dialogue hears of each result as what it is: while it waits for the daemon's word on the
/// user, a failed login shows as a failure and an accepted one goes on, and while it waits for the
/// session, the session shows as a success or a failure.
pub proof fn law_results_are_heard(username: Seq<char>, message: Seq<char>)
    ensures
        ({
            let asking = crate::login::LoginModel::Authenticating { username };
            let starting = crate::login::LoginModel::StartingSession { username };
            let failure = crate::login::LoginModel::Failure { username };
            &&& asking.on(ResultModel::AuthAccepted.login_event()).state == starting
            &&& asking.on(ResultModel::AuthFailure(message).login_event()).state == failure
            &&& starting.on(ResultModel::SessionStarted.login_event()).state
                == crate::login::LoginModel::Success
            &&& starting.on(ResultModel::SessionFailed(message).login_event()).state == failure
        }),
{
}

} // verus!
