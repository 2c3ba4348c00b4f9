//! The login dialogue: what it shows, and how it answers to events.

use std::time::Duration;
use vstd::prelude::*;

verus! {

/// Milliseconds between two steps of the dot animation.
pub const DOT_ANIMATION_INTERVAL: u128 = 180;

/// Number of steps after which the dot animation starts over.
pub const DOT_ANIMATION_STEPS: u128 = 4;

/// The number of whole milliseconds in a duration.
pub uninterp spec fn duration_millis(elapsed: Duration) -> u128;

/// `Duration::as_millis` returns the number of whole milliseconds in the duration, which is a
/// function of the duration alone.
pub assume_specification[ Duration::as_millis ](elapsed: &Duration) -> (millis: u128)
    ensures
        millis == duration_millis(*elapsed),
;

#[derive(Debug)]
pub enum LoginState {
    UsernameInput { username: String },
    PasswordInput { username: String, password: String },
    Authenticating { username: String },
    StartingSession { username: String },
    Failure { username: String },
    Success,
}

#[derive(Clone, Copy, Debug)]
pub enum LoginEvent {
    Char(char),
    Delete,
    Submit,
    PreviousField,
    AuthAccepted,
    AuthFailure,
    SessionStarted,
    SessionFailure,
    TimerOver,
}

#[derive(Debug)]
pub enum LoginAction {
    Authenticate { username: String, password: String },
    Exit,
}

pub struct LoginTransition {
    pub state: LoginState,
    pub action: Option<LoginAction>,
    pub reset_timer: bool,
}

/// A login state with its texts as character sequences.
pub enum LoginModel {
    UsernameInput { username: Seq<char> },
    PasswordInput { username: Seq<char>, password: Seq<char> },
    Authenticating { username: Seq<char> },
    StartingSession { username: Seq<char> },
    Failure { username: Seq<char> },
    Success,
}

/// A login action with its texts as character sequences.
pub enum ActionModel {
    Authenticate { username: Seq<char>, password: Seq<char> },
    Exit,
}

/// A transition over the models of its state and action.
#[verifier::ext_equal]
pub struct TransitionModel {
    pub state: LoginModel,
    pub action: Option<ActionModel>,
    pub reset_timer: bool,
}

impl View for LoginState {
    type V = LoginModel;

    open spec fn view(&self) -> LoginModel {
        match self {
            LoginState::UsernameInput { username } => LoginModel::UsernameInput {
                username: username@,
            },
            LoginState::PasswordInput { username, password } => LoginModel::PasswordInput {
                username: username@,
                password: password@,
            },
            LoginState::Authenticating { username } => LoginModel::Authenticating {
                username: username@,
            },
            LoginState::StartingSession { username } => LoginModel::StartingSession {
                username: username@,
            },
            LoginState::Failure { username } => LoginModel::Failure { username: username@ },
            LoginState::Success => LoginModel::Success,
        }
    }
}

impl View for LoginAction {
    type V = ActionModel;

    open spec fn view(&self) -> ActionModel {
        match self {
            LoginAction::Authenticate { username, password } => ActionModel::Authenticate {
                username: username@,
                password: password@,
            },
            LoginAction::Exit => ActionModel::Exit,
        }
    }
}

impl View for LoginTransition {
    type V = TransitionModel;

    open spec fn view(&self) -> TransitionModel {
        TransitionModel {
            state: self.state@,
            action: match self.action {
                Some(action) => Some(action@),
                None => None,
            },
            reset_timer: self.reset_timer,
        }
    }
}

impl TransitionModel {
    /// The transition that goes nowhere: same timer, nothing to do.
    pub open spec fn stay(state: LoginModel) -> TransitionModel {
        TransitionModel { state, action: None, reset_timer: false }
    }

    /// The transition into another state, in which the timer starts over.
    pub open spec fn change(state: LoginModel) -> TransitionModel {
        TransitionModel { state, action: None, reset_timer: true }
    }

    /// The transition into another state that also asks for an action.
    pub open spec fn change_with_action(state: LoginModel, action: ActionModel) -> TransitionModel {
        TransitionModel { state, action: Some(action), reset_timer: true }
    }
}

/// A text without its last character; the empty text stays empty.
pub open spec fn without_last(text: Seq<char>) -> Seq<char> {
    if text.len() == 0 {
        text
    } else {
        text.drop_last()
    }
}

impl LoginModel {
    /// The transition table of the dialogue.
    pub open spec fn on(self, ev: LoginEvent) -> TransitionModel {
        match (self, ev) {
            // Typing a name.
            (LoginModel::UsernameInput { username }, LoginEvent::Char(c)) => TransitionModel::stay(
                LoginModel::UsernameInput { username: username.push(c) },
            ),
            (LoginModel::UsernameInput { username }, LoginEvent::Delete) => TransitionModel::stay(
                LoginModel::UsernameInput { username: without_last(username) },
            ),
            (LoginModel::UsernameInput { username }, LoginEvent::Submit) => if username.len() > 0 {
                TransitionModel::change(
                    LoginModel::PasswordInput { username, password: Seq::empty() },
                )
            } else {
                TransitionModel::stay(self)
            },
            // Typing a password.
            (
                LoginModel::PasswordInput { username, password },
                LoginEvent::Char(c),
            ) => TransitionModel::stay(
                LoginModel::PasswordInput { username, password: password.push(c) },
            ),
            (
                LoginModel::PasswordInput { username, password },
                LoginEvent::Delete,
            ) => TransitionModel::stay(
                LoginModel::PasswordInput { username, password: without_last(password) },
            ),
            (
                LoginModel::PasswordInput { username, password },
                LoginEvent::Submit,
            ) => TransitionModel::change_with_action(
                LoginModel::Authenticating { username },
                ActionModel::Authenticate { username, password },
            ),
            (
                LoginModel::PasswordInput { username, .. },
                LoginEvent::PreviousField,
            ) => TransitionModel::change(LoginModel::UsernameInput { username }),
            // Waiting for the login daemon.
            (
                LoginModel::Authenticating { username },
                LoginEvent::AuthAccepted,
            ) => TransitionModel::change(LoginModel::StartingSession { username }),
            (
                LoginModel::Authenticating { username },
                LoginEvent::AuthFailure,
            ) => TransitionModel::change(LoginModel::Failure { username }),
            (
                LoginModel::StartingSession { .. },
                LoginEvent::SessionStarted,
            ) => TransitionModel::change(LoginModel::Success),
            (
                LoginModel::StartingSession { username },
                LoginEvent::SessionFailure,
            ) => TransitionModel::change(LoginModel::Failure { username }),
            // After a refusal: type another password, or another name.
            (LoginModel::Failure { username }, LoginEvent::Char(c)) => TransitionModel::change(
                LoginModel::PasswordInput { username, password: seq![c] },
            ),
            (LoginModel::Failure { username }, LoginEvent::PreviousField) => TransitionModel::change(
                LoginModel::UsernameInput { username },
            ),
            // Done.
            (LoginModel::Success, LoginEvent::TimerOver) => TransitionModel::change_with_action(
                LoginModel::Success,
                ActionModel::Exit,
            ),
            _ => TransitionModel::stay(self),
        }
    }

    /// The name that the dialogue holds, if it still holds one.
    pub open spec fn username(self) -> Option<Seq<char>> {
        match self {
            LoginModel::UsernameInput { username } => Some(username),
            LoginModel::PasswordInput { username, .. } => Some(username),
            LoginModel::Authenticating { username } => Some(username),
            LoginModel::StartingSession { username } => Some(username),
            LoginModel::Failure { username } => Some(username),
            LoginModel::Success => None,
        }
    }

    /// The text on the screen, `millis` milliseconds after the state was entered.
    pub open spec fn message(self, millis: u128) -> Seq<char> {
        match self {
            LoginModel::UsernameInput { username } => "Hello "@ + username + "_"@,
            LoginModel::PasswordInput { username, password } => "Hello "@ + username + "\n"@ + stars(
                password.len(),
            ) + "_"@,
            LoginModel::Authenticating { username } => "Hello "@ + username
                + "\nauthenticating"@ + dots(millis),
            LoginModel::StartingSession { username } => "Hello "@ + username
                + "\nstarting session"@ + dots(millis),
            LoginModel::Failure { username } => "Hello "@ + username + "\nlogin failed"@,
            LoginModel::Success => Seq::empty(),
        }
    }

    /// The number by which shaders know the state.
    pub open spec fn visual_state(self) -> i32 {
        match self {
            LoginModel::UsernameInput { .. } => 0,
            LoginModel::PasswordInput { .. } => 1,
            LoginModel::Authenticating { .. } => 2,
            LoginModel::StartingSession { .. } => 3,
            LoginModel::Failure { .. } => 4,
            LoginModel::Success => 5,
        }
    }
}

/// As many stars as the password has characters.
pub open spec fn stars(n: nat) -> Seq<char> {
    Seq::new(n, |i: int| '*')
}

/// The dots of the animation: none, one, two, three, and again.
pub open spec fn dots(millis: u128) -> Seq<char> {
    Seq::new(
        ((millis as int / DOT_ANIMATION_INTERVAL as int) % (DOT_ANIMATION_STEPS as int)) as nat,
        |i: int| '.',
    )
}

impl LoginTransition {
    fn stay(state: LoginState) -> (t: Self)
        ensures
            t@ == TransitionModel::stay(state@),
    {
        Self { state, action: None, reset_timer: false }
    }

    fn change(state: LoginState) -> (t: Self)
        ensures
            t@ == TransitionModel::change(state@),
    {
        Self { state, action: None, reset_timer: true }
    }

    fn change_with_action(state: LoginState, action: LoginAction) -> (t: Self)
        ensures
            t@ == TransitionModel::change_with_action(state@, action@),
    {
        Self { state, action: Some(action), reset_timer: true }
    }
}

impl Default for LoginState {
    fn default() -> (state: Self)
        ensures
            state@ == (LoginModel::UsernameInput { username: Seq::empty() }),
    {
        Self::UsernameInput { username: String::with_capacity(256) }
    }
}

impl LoginState {
    pub fn visual_state(&self) -> (number: i32)
        ensures
            number == self@.visual_state(),
    {
        match self {
            LoginState::UsernameInput { .. } => 0,
            LoginState::PasswordInput { .. } => 1,
            LoginState::Authenticating { .. } => 2,
            LoginState::StartingSession { .. } => 3,
            LoginState::Failure { .. } => 4,
            LoginState::Success => 5,
        }
    }

    /// The text to show when the state has lasted for `elapsed`.
    pub fn message(&self, elapsed: Duration) -> (text: String)
        ensures
            text@ == self@.message(duration_millis(elapsed)),
    {
        self.message_at(elapsed.as_millis())
    }

    /// The text to show when the state has lasted for `millis` milliseconds.
    pub fn message_at(&self, millis: u128) -> (text: String)
        ensures
            text@ == self@.message(millis),
    {
        let mut text = String::new();
        match self {
            LoginState::UsernameInput { username } => {
                text.append("Hello ");
                text.append(username.as_str());
                text.append("_");
            },
            LoginState::PasswordInput { username, password } => {
                text.append("Hello ");
                text.append(username.as_str());
                text.append("\n");
                text.append(mask(password.as_str()).as_str());
                text.append("_");
            },
            LoginState::Authenticating { username } => {
                text.append("Hello ");
                text.append(username.as_str());
                text.append("\nauthenticating");
                text.append(dots_after(millis).as_str());
            },
            LoginState::StartingSession { username } => {
                text.append("Hello ");
                text.append(username.as_str());
                text.append("\nstarting session");
                text.append(dots_after(millis).as_str());
            },
            LoginState::Failure { username } => {
                text.append("Hello ");
                text.append(username.as_str());
                text.append("\nlogin failed");
            },
            LoginState::Success => {},
        }
        text
    }

    /// The answer of the dialogue to an event.
    pub fn update(self, ev: LoginEvent) -> (t: LoginTransition)
        ensures
            t@ == self@.on(ev),
    {
        match (self, ev) {
            (LoginState::UsernameInput { mut username }, LoginEvent::Char(c)) => {
                username.push(c);
                LoginTransition::stay(LoginState::UsernameInput { username })
            },
            (LoginState::UsernameInput { mut username }, LoginEvent::Delete) => {
                username.pop();
                LoginTransition::stay(LoginState::UsernameInput { username })
            },
            (LoginState::UsernameInput { username }, LoginEvent::Submit) => {
                if username.as_str().is_empty() {
                    LoginTransition::stay(LoginState::UsernameInput { username })
                } else {
                    LoginTransition::change(
                        LoginState::PasswordInput { username, password: String::new() },
                    )
                }
            },
            (LoginState::PasswordInput { username, mut password }, LoginEvent::Char(c)) => {
                password.push(c);
                LoginTransition::stay(LoginState::PasswordInput { username, password })
            },
            (LoginState::PasswordInput { username, mut password }, LoginEvent::Delete) => {
                password.pop();
                LoginTransition::stay(LoginState::PasswordInput { username, password })
            },
            (LoginState::PasswordInput { username, password }, LoginEvent::Submit) => {
                LoginTransition::change_with_action(
                    LoginState::Authenticating { username: username.clone() },
                    LoginAction::Authenticate { username, password },
                )
            },
            (
                LoginState::PasswordInput { username, password: _ },
                LoginEvent::PreviousField,
            ) => LoginTransition::change(LoginState::UsernameInput { username }),
            (LoginState::Authenticating { username }, LoginEvent::AuthAccepted) => {
                LoginTransition::change(LoginState::StartingSession { username })
            },
            (LoginState::StartingSession { username: _ }, LoginEvent::SessionStarted) => {
                LoginTransition::change(LoginState::Success)
            },
            (LoginState::Authenticating { username }, LoginEvent::AuthFailure) => {
                LoginTransition::change(LoginState::Failure { username })
            },
            (LoginState::StartingSession { username }, LoginEvent::SessionFailure) => {
                LoginTransition::change(LoginState::Failure { username })
            },
            (LoginState::Failure { username }, LoginEvent::Char(c)) => {
                let mut password = String::new();
                password.push(c);
                assert(password@ =~= seq![c]);
                LoginTransition::change(LoginState::PasswordInput { username, password })
            },
            (LoginState::Failure { username }, LoginEvent::PreviousField) => {
                LoginTransition::change(LoginState::UsernameInput { username })
            },
            (LoginState::Success, LoginEvent::TimerOver) => {
                LoginTransition::change_with_action(LoginState::Success, LoginAction::Exit)
            },
            (state, _) => LoginTransition::stay(state),
        }
    }
}

/// A text with each character replaced by a star.
fn mask(password: &str) -> (masked: String)
    ensures
        masked@ == stars(password@.len()),
{
    let n: usize = password.unicode_len();
    repeat('*', n)
}

/// `n` times the same character.
fn repeat(c: char, n: usize) -> (text: String)
    ensures
        text@ == Seq::new(n as nat, |i: int| c),
{
    let mut text = String::new();
    for i in 0..n
        invariant
            text@ == Seq::new(i as nat, |j: int| c),
    {
        text.push(c);
    }
    text
}

/// The dots to show after some waiting.
pub fn animated_dots(elapsed: Duration) -> (text: String)
    ensures
        text@ == dots(duration_millis(elapsed)),
{
    dots_after(elapsed.as_millis())
}

/// The dots to show after `millis` milliseconds of waiting.
pub fn dots_after(millis: u128) -> (text: String)
    ensures
        text@ == dots(millis),
{
    let step: u128 = millis / DOT_ANIMATION_INTERVAL;
    let n: usize = (step % DOT_ANIMATION_STEPS) as usize;
    repeat('.', n)
}

/// A state past the name field has a name in it.
pub open spec fn name_is_set(state: LoginModel) -> bool {
    match state {
        LoginModel::UsernameInput { .. } => true,
        LoginModel::PasswordInput { username, .. } => username.len() > 0,
        LoginModel::Authenticating { username } => username.len() > 0,
        LoginModel::StartingSession { username } => username.len() > 0,
        LoginModel::Failure { username } => username.len() > 0,
        LoginModel::Success => true,
    }
}

/// The state after a sequence of events.
pub open spec fn after(state: LoginModel, events: Seq<LoginEvent>) -> LoginModel
    decreases events.len(),
{
    if events.len() == 0 {
        state
    } else {
        after(state, events.drop_last()).on(events.last()).state
    }
}

/// The state in which the dialogue starts.
pub open spec fn initial() -> LoginModel {
    LoginModel::UsernameInput { username: Seq::empty() }
}

/// The key press that types a character.
pub open spec fn key_press(c: char) -> LoginEvent {
    LoginEvent::Char(c)
}

/// The key presses that type a text.
pub open spec fn typing(text: Seq<char>) -> Seq<LoginEvent> {
    Seq::new(text.len(), |i: int| key_press(text[i]))
}

/// Whatever happens, the dialogue never gets past the name field without a name.
pub proof fn law_name_is_set(events: Seq<LoginEvent>)
    ensures
        name_is_set(after(initial(), events)),
    decreases events.len(),
{
    if events.len() > 0 {
        law_name_is_set(events.drop_last());
    }
}

/// What is typed into the name field is the name.
pub proof fn law_typing_a_name(text: Seq<char>)
    ensures
        after(initial(), typing(text)) == (LoginModel::UsernameInput { username: text }),
    decreases text.len(),
{
    if text.len() > 0 {
        law_typing_a_name(text.drop_last());
        assert(typing(text).drop_last() =~= typing(text.drop_last()));
        assert(text.drop_last().push(text.last()) =~= text);
    } else {
        assert(text =~= Seq::<char>::empty());
    }
}

/// What is typed into the password field is added to the password.
pub proof fn law_typing_a_password(username: Seq<char>, password: Seq<char>, text: Seq<char>)
    ensures
        after(LoginModel::PasswordInput { username, password }, typing(text)) == (
        LoginModel::PasswordInput { username, password: password + text }),
    decreases text.len(),
{
    if text.len() > 0 {
        law_typing_a_password(username, password, text.drop_last());
        assert(typing(text).drop_last() =~= typing(text.drop_last()));
        assert((password + text.drop_last()).push(text.last()) =~= password + text);
    } else {
        assert(password + text =~= password);
    }
}

/// In both fields, deleting takes back the character that was typed last.
pub proof fn law_delete_undoes_char(state: LoginModel, c: char)
    requires
        state is UsernameInput || state is PasswordInput,
    ensures
        state.on(LoginEvent::Char(c)).state.on(LoginEvent::Delete).state == state,
{
    match state {
        LoginModel::UsernameInput { username } => {
            assert(username.push(c).drop_last() =~= username);
        },
        LoginModel::PasswordInput { username, password } => {
            assert(password.push(c).drop_last() =~= password);
        },
        _ => {},
    }
}

/// Credentials are handed over exactly when the password field is submitted, and they are the
/// ones that were typed.
pub proof fn law_credentials_are_what_was_typed(
    state: LoginModel,
    ev: LoginEvent,
    username: Seq<char>,
    password: Seq<char>,
)
    ensures
        state.on(ev).action == Some(ActionModel::Authenticate { username, password }) <==> (state
            == LoginModel::PasswordInput { username, password } && ev == LoginEvent::Submit),
{
}

/// Whoever types a name and a password, and submits each, has these handed over.
pub proof fn law_typed_credentials_are_handed_over(username: Seq<char>, password: Seq<char>)
    requires
        username.len() > 0,
    ensures
        after(initial(), typing(username) + seq![LoginEvent::Submit] + typing(password)).on(
            LoginEvent::Submit,
        ).action == Some(ActionModel::Authenticate { username, password }),
{
    let name = typing(username);
    let submit = seq![LoginEvent::Submit];
    law_typing_a_name(username);
    lemma_after_joins(initial(), name, submit);
    lemma_after_joins(initial(), name + submit, typing(password));
    assert(submit.drop_last() =~= Seq::empty());
    assert(after(LoginModel::UsernameInput { username }, submit.drop_last())
        == (LoginModel::UsernameInput { username }));
    assert(after(initial(), name + submit) == (LoginModel::PasswordInput {
        username,
        password: Seq::empty(),
    }));
    law_typing_a_password(username, Seq::empty(), password);
    assert(Seq::<char>::empty() + password =~= password);
}

/// The dialogue asks to exit exactly when the timer of a successful login runs out.
pub proof fn law_exit_only_after_success(state: LoginModel, ev: LoginEvent)
    ensures
        state.on(ev).action == Some(ActionModel::Exit) <==> (state is Success
            && ev is TimerOver),
{
}

/// A login succeeds only by the daemon's word: the session was started, which follows an
/// accepted authentication.
pub proof fn law_success_only_by_the_daemon(state: LoginModel, ev: LoginEvent)
    ensures
        state.on(ev).state is Success <==> (state is Success || (state is StartingSession
            && ev is SessionStarted)),
        state.on(ev).state is StartingSession <==> ((state is StartingSession && !(ev
            is SessionStarted) && !(ev is SessionFailure)) || (state is Authenticating
            && ev is AuthAccepted)),
{
}

/// The timer starts over exactly when the dialogue enters another kind of state, or exits.
pub proof fn law_timer_restarts_on_change(state: LoginModel, ev: LoginEvent)
    ensures
        state.on(ev).reset_timer <==> (state.on(ev).state.visual_state() != state.visual_state()
            || state.on(ev).action == Some(ActionModel::Exit)),
{
}

/// Only typing and deleting in the name field change the name, until success drops it.
pub proof fn law_name_is_kept(state: LoginModel, ev: LoginEvent)
    requires
        !(state is UsernameInput && (ev is Char || ev is Delete)),
        !(state.on(ev).state is Success),
    ensures
        state.on(ev).state.username() == state.username(),
{
}

/// Going back to the name field drops the password, so that submitting the name again starts
/// with an empty one.
pub proof fn law_going_back_drops_the_password(username: Seq<char>, password: Seq<char>)
    requires
        username.len() > 0,
    ensures
        after(
            LoginModel::PasswordInput { username, password },
            seq![LoginEvent::PreviousField, LoginEvent::Submit],
        ) == (LoginModel::PasswordInput { username, password: Seq::empty() }),
{
    let events = seq![LoginEvent::PreviousField, LoginEvent::Submit];
    let first = events.drop_last();
    assert(first.drop_last() =~= Seq::empty());
    assert(after(LoginModel::PasswordInput { username, password }, first.drop_last())
        == (LoginModel::PasswordInput { username, password }));
    assert(after(LoginModel::PasswordInput { username, password }, first)
        == (LoginModel::UsernameInput { username }));
}

/// The screen shows nothing of a password but its length.
pub proof fn law_password_is_not_shown(
    username: Seq<char>,
    password: Seq<char>,
    other: Seq<char>,
    millis: u128,
)
    requires
        password.len() == other.len(),
    ensures
        (LoginModel::PasswordInput { username, password }).message(millis) == (
        LoginModel::PasswordInput { username, password: other }).message(millis),
{
}

/// The dot animation repeats after all of its steps.
pub proof fn law_dots_repeat(millis: u128, later: u128)
    requires
        later == millis + DOT_ANIMATION_INTERVAL * DOT_ANIMATION_STEPS,
    ensures
        dots(later) == dots(millis),
{
    assert(later as int / 180 == millis as int / 180 + 4);
}

/// The states have different numbers.
pub proof fn law_visual_states_differ(state: LoginModel, other: LoginModel)
    ensures
        0 <= state.visual_state() <= 5,
        state.visual_state() == other.visual_state() <==> ((state is UsernameInput <==> other
            is UsernameInput) && (state is PasswordInput <==> other is PasswordInput) && (state
            is Authenticating <==> other is Authenticating) && (state is StartingSession <==> other
            is StartingSession) && (state is Failure <==> other is Failure) && (state
            is Success <==> other is Success)),
{
}

/// Events that follow others act on the state that those lead to.
pub proof fn lemma_after_joins(state: LoginModel, first: Seq<LoginEvent>, second: Seq<LoginEvent>)
    ensures
        after(state, first + second) == after(after(state, first), second),
    decreases second.len(),
{
    if second.len() == 0 {
        assert(first + second =~= first);
    } else {
        lemma_after_joins(state, first, second.drop_last());
        assert((first + second).drop_last() =~= first + second.drop_last());
    }
}

/// After a failure, what is typed is the new password from its first character on, and it is handed
/// over with the same name.
pub proof fn law_retry_after_a_failure(username: Seq<char>, text: Seq<char>)
    requires
        text.len() > 0,
    ensures
        after(LoginModel::Failure { username }, typing(text)) == (LoginModel::PasswordInput {
            username,
            password: text,
        }),
        after(LoginModel::Failure { username }, typing(text)).on(LoginEvent::Submit).action == Some(
            ActionModel::Authenticate { username, password: text },
        ),
{
    let failure = LoginModel::Failure { username };
    let first = typing(text.take(1));
    let rest = typing(text.skip(1));
    assert(first.drop_last() =~= Seq::empty());
    assert(after(failure, first.drop_last()) == failure);
    assert(first.last() == LoginEvent::Char(text[0]));
    assert(text.take(1) =~= seq![text[0]]);
    assert(after(failure, first) == (LoginModel::PasswordInput {
        username,
        password: text.take(1),
    }));
    law_typing_a_password(username, text.take(1), text.skip(1));
    lemma_after_joins(failure, first, rest);
    assert(text.take(1) + text.skip(1) =~= text);
    assert(first + rest =~= typing(text)) by {
        assert forall|i: int| 0 <= i < text.len() implies (first + rest)[i] == typing(text)[i] by {
            if i > 0 {
                assert(rest[i - 1] == key_press(text.skip(1)[i - 1]));
            } else {
                assert(first[0] == key_press(text.take(1)[0]));
            }
        }
    }
}

/// After a failure, going back leads to the name that failed, and nothing but a character or going
/// back does anything.
pub proof fn law_failure_waits_for_the_user(username: Seq<char>, ev: LoginEvent)
    ensures
        ({
            let t = (LoginModel::Failure { username }).on(ev);
            &&& ev is PreviousField ==> t.state == (LoginModel::UsernameInput { username })
            &&& !(ev is Char) && !(ev is PreviousField) ==> t.state == (LoginModel::Failure {
                username,
            })
            &&& t.action is None
            &&& t.reset_timer == (ev is Char || ev is PreviousField)
        }),
{
}

/// Deleting in an empty field leaves it empty.
pub proof fn law_delete_in_an_empty_field(username: Seq<char>)
    ensures
        initial().on(LoginEvent::Delete).state == initial(),
        (LoginModel::PasswordInput { username, password: Seq::empty() }).on(
            LoginEvent::Delete,
        ).state == (LoginModel::PasswordInput { username, password: Seq::empty() }),
{
}

/// A name is submitted if there is one, and the password then starts empty. An empty name stays
/// where it is.
pub proof fn law_submitting_a_name(username: Seq<char>)
    ensures
        (LoginModel::UsernameInput { username }).on(LoginEvent::Submit).state == if username.len()
            == 0 {
            LoginModel::UsernameInput { username }
        } else {
            LoginModel::PasswordInput { username, password: Seq::empty() }
        },
        (LoginModel::UsernameInput { username }).on(LoginEvent::Submit).action is None,
        (LoginModel::UsernameInput { username }).on(LoginEvent::PreviousField).state == (
        LoginModel::UsernameInput { username }),
{
}

/// Submitting a password, also an empty one, leaves the dialogue waiting for the daemon.
pub proof fn law_submitting_a_password(username: Seq<char>, password: Seq<char>)
    ensures
        (LoginModel::PasswordInput { username, password }).on(LoginEvent::Submit).state == (
        LoginModel::Authenticating { username }),
        (LoginModel::PasswordInput { username, password }).on(LoginEvent::PreviousField).state == (
        LoginModel::UsernameInput { username }),
        (LoginModel::PasswordInput { username, password }).on(
            LoginEvent::PreviousField,
        ).action is None,
{
}

/// Whether an event comes from a key.
pub open spec fn is_key(ev: LoginEvent) -> bool {
    ev is Char || ev is Delete || ev is Submit || ev is PreviousField
}

/// While a field is being typed into, only keys do something.
pub proof fn law_fields_hear_keys_only(state: LoginModel, ev: LoginEvent)
    requires
        state is UsernameInput || state is PasswordInput,
        !is_key(ev),
    ensures
        state.on(ev) == (TransitionModel { state, action: None, reset_timer: false }),
{
}

/// While the daemon is asked, and after success, keys do nothing.
pub proof fn law_keys_wait_for_the_daemon(state: LoginModel, ev: LoginEvent)
    requires
        state is Authenticating || state is StartingSession || state is Success,
        is_key(ev) || (ev is TimerOver && !(state is Success)),
    ensures
        state.on(ev) == (TransitionModel { state, action: None, reset_timer: false }),
{
}

/// The daemon's word on the user counts while it is asked about the user, and its word on the
/// session while the session starts.
pub proof fn law_verdicts_lead_on(username: Seq<char>, ev: LoginEvent)
    requires
        !is_key(ev),
    ensures
        (LoginModel::Authenticating { username }).on(ev).state == if ev is AuthAccepted {
            LoginModel::StartingSession { username }
        } else if ev is AuthFailure {
            LoginModel::Failure { username }
        } else {
            LoginModel::Authenticating { username }
        },
        (LoginModel::StartingSession { username }).on(ev).state == if ev is SessionStarted {
            LoginModel::Success
        } else if ev is SessionFailure {
            LoginModel::Failure { username }
        } else {
            LoginModel::StartingSession { username }
        },
        LoginModel::Success.on(ev).state is Success,
{
}

/// Only a submitted password and the end of a successful login ask for something.
pub proof fn law_actions_are_rare(state: LoginModel, ev: LoginEvent)
    ensures
        state.on(ev).action is Some ==> (state is PasswordInput && ev is Submit) || (state
            is Success && ev is TimerOver),
{
}

/// Before success, every message greets with the name.
pub proof fn law_message_greets(state: LoginModel, username: Seq<char>, millis: u128)
    requires
        state.username() == Some(username),
    ensures
        ("Hello "@ + username).is_prefix_of(state.message(millis)),
{
    let greeting = "Hello "@ + username;
    let text = state.message(millis);
    assert(greeting =~= text.subrange(0, greeting.len() as int)) by {
        reveal_strlit("Hello ");
    }
}

/// What each state shows below the greeting: a cursor behind the name or behind one star for each
/// character of the password, or what is going on.
pub proof fn law_message_tells_the_state(username: Seq<char>, password: Seq<char>, millis: u128)
    ensures
        ({
            let greeting = "Hello "@ + username;
            let waiting = dots(millis);
            &&& (LoginModel::UsernameInput { username }).message(millis) == greeting.push('_')
            &&& (LoginModel::PasswordInput { username, password }).message(millis) == greeting.push(
                '\n',
            ) + password.map_values(|c: char| '*') + seq!['_']
            &&& (LoginModel::Authenticating { username }).message(millis) == greeting
                + "\nauthenticating"@ + waiting
            &&& (LoginModel::StartingSession { username }).message(millis) == greeting
                + "\nstarting session"@ + waiting
            &&& (LoginModel::Failure { username }).message(millis) == greeting
                + "\nlogin failed"@
            &&& LoginModel::Success.message(millis) == Seq::<char>::empty()
        }),
{
    let greeting = "Hello "@ + username;
    reveal_strlit("_");
    reveal_strlit("\n");
    assert((LoginModel::UsernameInput { username }).message(millis) =~= greeting.push('_'));
    assert((LoginModel::PasswordInput { username, password }).message(millis) =~= greeting.push(
        '\n',
    ) + password.map_values(|c: char| '*') + seq!['_']);
}

/// There are no dots at first. Each 180 milliseconds one more is shown, up to three, and then none
/// again. In between nothing changes.
pub proof fn law_dots_advance(millis: u128, later: u128)
    requires
        millis <= later,
    ensures
        millis < 180 ==> dots(millis).len() == 0,
        later == millis + 180 ==> dots(later).len() == if dots(millis).len() == 3 {
            0
        } else {
            dots(millis).len() + 1
        },
        later as int / 180 == millis as int / 180 ==> dots(later) == dots(millis),
        forall|i: int| 0 <= i < dots(millis).len() ==> dots(millis)[i] == '.',
{
    if later == millis + 180 {
        assert(later as int / 180 == millis as int / 180 + 1);
    }
}

/// The states are numbered along the way to success: the two fields, the two waits, the failure,
/// and the success.
pub proof fn law_states_are_numbered(username: Seq<char>, password: Seq<char>)
    ensures
        seq![
            LoginModel::UsernameInput { username },
            LoginModel::PasswordInput { username, password },
            LoginModel::Authenticating { username },
            LoginModel::StartingSession { username },
            LoginModel::Failure { username },
            LoginModel::Success,
        ].map_values(|state: LoginModel| state.visual_state()) == seq![0i32, 1, 2, 3, 4, 5],
{
    let states = seq![
        LoginModel::UsernameInput { username },
        LoginModel::PasswordInput { username, password },
        LoginModel::Authenticating { username },
        LoginModel::StartingSession { username },
        LoginModel::Failure { username },
        LoginModel::Success,
    ];
    assert(states.map_values(|state: LoginModel| state.visual_state()) =~= seq![
        0i32,
        1,
        2,
        3,
        4,
        5,
    ]);
}

} // verus!
