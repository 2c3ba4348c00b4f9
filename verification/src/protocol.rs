//! The messages between the greeter and the login daemon, and their framing on the socket.

use crate::text::quoted;
use vstd::prelude::*;

verus! {

/// Sent by the greeter (client) to greetd (server).
#[derive(Debug)]
pub enum Request {
    CreateSession { username: String },
    PostAuthMessageResponse { response: Option<String> },
    StartSession { cmd: Vec<String>, env: Vec<String> },
    CancelSession,
}

/// Sent by greetd (server) to the greeter (client).
#[derive(Debug)]
pub enum Response {
    Success,
    Error { error_type: ErrorType, description: String },
    AuthMessage { auth_message_type: AuthMessageType, auth_message: String },
}

#[derive(Clone, Copy, Debug, PartialEq, Eq, Structural)]
pub enum ErrorType {
    AuthError,
    Error,
}

#[derive(Clone, Copy, Debug, PartialEq, Eq, Structural)]
pub enum AuthMessageType {
    Visible,
    Secret,
    Info,
    Error,
}

/// A request with its texts as character sequences.
pub enum RequestModel {
    CreateSession { username: Seq<char> },
    PostAuthMessageResponse { response: Option<Seq<char>> },
    StartSession { cmd: Seq<Seq<char>>, env: Seq<Seq<char>> },
    CancelSession,
}

/// A response with its texts as character sequences.
pub enum ResponseModel {
    Success,
    Error { error_type: ErrorType, description: Seq<char> },
    AuthMessage { auth_message_type: AuthMessageType, auth_message: Seq<char> },
}

impl View for Request {
    type V = RequestModel;

    open spec fn view(&self) -> RequestModel {
        match self {
            Request::CreateSession { username } => RequestModel::CreateSession {
                username: username@,
            },
            Request::PostAuthMessageResponse { response } => RequestModel::PostAuthMessageResponse {
                response: match response {
                    Some(text) => Some(text@),
                    None => None,
                },
            },
            Request::StartSession { cmd, env } => RequestModel::StartSession {
                cmd: crate::text::texts(cmd@),
                env: crate::text::texts(env@),
            },
            Request::CancelSession => RequestModel::CancelSession,
        }
    }
}

impl View for Response {
    type V = ResponseModel;

    open spec fn view(&self) -> ResponseModel {
        match self {
            Response::Success => ResponseModel::Success,
            Response::Error { error_type, description } => ResponseModel::Error {
                error_type: *error_type,
                description: description@,
            },
            Response::AuthMessage { auth_message_type, auth_message } => ResponseModel::AuthMessage {
                auth_message_type: *auth_message_type,
                auth_message: auth_message@,
            },
        }
    }
}

impl ErrorType {
    /// The name of the variant.
    pub open spec fn spec_name(self) -> Seq<char> {
        match self {
            ErrorType::AuthError => "AuthError"@,
            ErrorType::Error => "Error"@,
        }
    }

    /// The name of the variant.
    pub fn name(&self) -> (text: &'static str)
        ensures
            text@ == self.spec_name(),
    {
        match self {
            ErrorType::AuthError => "AuthError",
            ErrorType::Error => "Error",
        }
    }
}

impl AuthMessageType {
    /// The name of the variant.
    pub open spec fn spec_name(self) -> Seq<char> {
        match self {
            AuthMessageType::Visible => "Visible"@,
            AuthMessageType::Secret => "Secret"@,
            AuthMessageType::Info => "Info"@,
            AuthMessageType::Error => "Error"@,
        }
    }

    /// The name of the variant.
    pub fn name(&self) -> (text: &'static str)
        ensures
            text@ == self.spec_name(),
    {
        match self {
            AuthMessageType::Visible => "Visible",
            AuthMessageType::Secret => "Secret",
            AuthMessageType::Info => "Info",
            AuthMessageType::Error => "Error",
        }
    }
}

impl ResponseModel {
    /// The text in a response.
    pub open spec fn text(self) -> Seq<char> {
        match self {
            ResponseModel::Success => Seq::empty(),
            ResponseModel::Error { description, .. } => description,
            ResponseModel::AuthMessage { auth_message, .. } => auth_message,
        }
    }

    /// The response as a developer reads it in an error message, with the given text in the place
    /// of its own.
    pub open spec fn described_with(self, text: Seq<char>) -> Seq<char> {
        match self {
            ResponseModel::Success => "Success"@,
            ResponseModel::Error { error_type, .. } => "Error { error_type: "@
                + error_type.spec_name() + ", description: "@ + text + " }"@,
            ResponseModel::AuthMessage { auth_message_type, .. } =>
                "AuthMessage { auth_message_type: "@ + auth_message_type.spec_name()
                + ", auth_message: "@ + text + " }"@,
        }
    }

    /// The response as a developer reads it in an error message.
    pub open spec fn described(self) -> Seq<char> {
        self.described_with(crate::text::debug_text(self.text()))
    }
}

impl Response {
    /// The text in a response.
    fn text(&self) -> (text: &str)
        ensures
            text@ == self@.text(),
    {
        match self {
            Response::Success => {
                proof {
                    reveal_strlit("");
                    assert(""@ =~= Seq::empty());
                }
                ""
            },
            Response::Error { error_type: _, description } => description.as_str(),
            Response::AuthMessage { auth_message_type: _, auth_message } => auth_message.as_str(),
        }
    }

    /// The response as a developer reads it in an error message, with the given text in the place
    /// of its own.
    pub fn describe_with(&self, text: &str) -> (description: String)
        ensures
            description@ == self@.described_with(text@),
    {
        let mut result = String::new();
        match self {
            Response::Success => {
                result.append("Success");
            },
            Response::Error { error_type, description: _ } => {
                result.append("Error { error_type: ");
                result.append(error_type.name());
                result.append(", description: ");
                result.append(text);
                result.append(" }");
            },
            Response::AuthMessage { auth_message_type, auth_message: _ } => {
                result.append("AuthMessage { auth_message_type: ");
                result.append(auth_message_type.name());
                result.append(", auth_message: ");
                result.append(text);
                result.append(" }");
            },
        }
        result
    }

    /// The response as a developer reads it in an error message.
    pub fn describe(&self) -> (text: String)
        ensures
            text@ == self@.described(),
    {
        self.describe_with(quoted(self.text()).as_str())
    }
}

/// Number of bytes in front of each payload.
pub const HEADER_LEN: usize = 4;

/// A number in four bytes, the lowest first.
pub open spec fn le_bytes(n: u32) -> Seq<u8> {
    seq![
        (n as int % 256) as u8,
        (n as int / 256 % 256) as u8,
        (n as int / 65536 % 256) as u8,
        (n as int / 16777216) as u8,
    ]
}

/// The number that four bytes hold, the lowest first.
pub open spec fn le_value(bytes: Seq<u8>) -> int
    recommends
        bytes.len() == HEADER_LEN,
{
    bytes[0] + bytes[1] * 256 + bytes[2] * 65536 + bytes[3] * 16777216
}

/// The length field of a payload, which counts modulo 2^32.
pub open spec fn length_field(len: nat) -> u32 {
    (len % 0x1_0000_0000) as u32
}

/// What a payload looks like on the socket.
pub open spec fn frame(payload: Seq<u8>) -> Seq<u8> {
    le_bytes(length_field(payload.len())) + payload
}

/// What a reader takes from the socket: the payload and what follows it, or nothing while the
/// frame is not complete.
pub open spec fn read_frame(stream: Seq<u8>) -> Option<(Seq<u8>, Seq<u8>)> {
    if stream.len() < HEADER_LEN {
        None
    } else {
        let end = HEADER_LEN + le_value(stream.take(HEADER_LEN as int));
        if stream.len() < end {
            None
        } else {
            Some((stream.subrange(HEADER_LEN as int, end), stream.skip(end)))
        }
    }
}

/// The four bytes of a number, the lowest first.
pub(crate) fn number_bytes(n: u32) -> (bytes: [u8; 4])
    ensures
        bytes@ == le_bytes(n),
{
    let bytes: [u8; 4] = [
        (n % 256) as u8,
        (n / 256 % 256) as u8,
        (n / 65536 % 256) as u8,
        (n / 16777216) as u8,
    ];
    assert(bytes@ =~= le_bytes(n));
    bytes
}

/// Puts a payload into a frame.
pub fn encode_frame(payload: &[u8]) -> (bytes: Vec<u8>)
    ensures
        bytes@ == frame(payload@),
{
    let len: u32 = (payload.len() as u64 % 0x1_0000_0000u64) as u32;
    let header: [u8; 4] = number_bytes(len);
    let mut bytes: Vec<u8> = Vec::new();
    bytes.extend_from_slice(header.as_slice());
    bytes.extend_from_slice(payload);
    assert(bytes@ =~= frame(payload@));
    bytes
}

/// The number of bytes that follow a header.
pub fn payload_len(header: [u8; 4]) -> (len: usize)
    ensures
        len == le_value(header@),
{
    header[0] as usize + header[1] as usize * 256 + header[2] as usize * 65536
        + header[3] as usize * 16777216
}

/// The four bytes of a number hold that number.
pub proof fn law_length_round_trip(n: u32)
    ensures
        le_value(le_bytes(n)) == n,
{
}

/// A reader gets back the payload that a writer framed, and stops right behind it.
pub proof fn law_frame_round_trip(payload: Seq<u8>, rest: Seq<u8>)
    requires
        payload.len() < 0x1_0000_0000,
    ensures
        read_frame(frame(payload) + rest) == Some((payload, rest)),
{
    let stream = frame(payload) + rest;
    assert(stream.take(4) =~= le_bytes(payload.len() as u32));
    law_length_round_trip(payload.len() as u32);
    let end = 4 + payload.len() as int;
    assert(stream.subrange(4, end) =~= payload);
    assert(stream.skip(end) =~= rest);
}

/// While a frame is not complete, a reader takes nothing.
pub proof fn law_partial_frame_is_not_read(payload: Seq<u8>, n: int)
    requires
        payload.len() < 0x1_0000_0000,
        0 <= n < frame(payload).len(),
    ensures
        read_frame(frame(payload).take(n)) is None,
{
    let stream = frame(payload).take(n);
    if n >= 4 {
        assert(stream.take(4) =~= le_bytes(payload.len() as u32));
        law_length_round_trip(payload.len() as u32);
    }
}

/// The lowest byte of a number comes first.
pub proof fn law_lowest_byte_comes_first(n: u32)
    ensures
        le_bytes(n).len() == 4,
        n == le_bytes(n)[0] + 256 * (le_bytes(n)[1] + 256 * (le_bytes(n)[2] + 256 * le_bytes(
            n,
        )[3])),
{
}

/// A frame is four bytes that hold the length of the payload, and then the payload.
pub proof fn law_frame_is_length_and_payload(payload: Seq<u8>)
    requires
        payload.len() < 0x1_0000_0000,
    ensures
        frame(payload).len() == 4 + payload.len(),
        frame(payload)[0] + 256 * (frame(payload)[1] + 256 * (frame(payload)[2] + 256 * frame(
            payload,
        )[3])) == payload.len(),
        frame(payload).skip(4) == payload,
{
    law_lowest_byte_comes_first(payload.len() as u32);
    assert(frame(payload).skip(4) =~= payload);
}

/// A description names the kind of the response and what kind of error or message it is, and has
/// the text of the response in quotes.
pub proof fn law_description_tells_the_response(
    error_type: ErrorType,
    auth_message_type: AuthMessageType,
    text: Seq<char>,
)
    ensures
        ResponseModel::Success.described() == "Success"@,
        (ResponseModel::Error { error_type, description: text }).described() == (if error_type
            is AuthError {
            "Error { error_type: AuthError, description: "@
        } else {
            "Error { error_type: Error, description: "@
        }) + crate::text::debug_text(text) + " }"@,
        (ResponseModel::AuthMessage { auth_message_type, auth_message: text }).described() == (
        match auth_message_type {
            AuthMessageType::Visible => "AuthMessage { auth_message_type: Visible, auth_message: "@,
            AuthMessageType::Secret => "AuthMessage { auth_message_type: Secret, auth_message: "@,
            AuthMessageType::Info => "AuthMessage { auth_message_type: Info, auth_message: "@,
            AuthMessageType::Error => "AuthMessage { auth_message_type: Error, auth_message: "@,
        }) + crate::text::debug_text(text) + " }"@,
{
    reveal_strlit("Error { error_type: AuthError, description: ");
    reveal_strlit("Error { error_type: Error, description: ");
    reveal_strlit("Error { error_type: ");
    reveal_strlit("AuthError");
    reveal_strlit("Error");
    reveal_strlit(", description: ");
    let error = "Error { error_type: "@;
    assert(error + "AuthError"@ + ", description: "@
        =~= "Error { error_type: AuthError, description: "@);
    assert(error + "Error"@ + ", description: "@ =~= "Error { error_type: Error, description: "@);
    reveal_strlit("AuthMessage { auth_message_type: Visible, auth_message: ");
    reveal_strlit("AuthMessage { auth_message_type: Secret, auth_message: ");
    reveal_strlit("AuthMessage { auth_message_type: Info, auth_message: ");
    reveal_strlit("AuthMessage { auth_message_type: Error, auth_message: ");
    reveal_strlit("AuthMessage { auth_message_type: ");
    reveal_strlit("Visible");
    reveal_strlit("Secret");
    reveal_strlit("Info");
    reveal_strlit(", auth_message: ");
    let message = "AuthMessage { auth_message_type: "@;
    assert(message + "Visible"@ + ", auth_message: "@
        =~= "AuthMessage { auth_message_type: Visible, auth_message: "@);
    assert(message + "Secret"@ + ", auth_message: "@
        =~= "AuthMessage { auth_message_type: Secret, auth_message: "@);
    assert(message + "Info"@ + ", auth_message: "@
        =~= "AuthMessage { auth_message_type: Info, auth_message: "@);
    assert(message + "Error"@ + ", auth_message: "@
        =~= "AuthMessage { auth_message_type: Error, auth_message: "@);
}

} // verus!
