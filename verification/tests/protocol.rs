use shlog::protocol::{encode_frame, payload_len};
use shlog::{AuthMessageType, ErrorType, Response};

#[test]
fn a_frame_begins_with_the_length() {
    let payload = vec![7u8; 0x1_02];
    let bytes = encode_frame(&payload);
    assert_eq!(bytes[..4], [2, 1, 0, 0]);
    assert_eq!(bytes[4..], payload[..]);
    assert_eq!(encode_frame(b""), [0, 0, 0, 0]);
}

#[test]
fn the_length_is_read_back() {
    for len in [0usize, 1, 255, 256, 70_000] {
        let bytes = encode_frame(&vec![0u8; len]);
        assert_eq!(payload_len([bytes[0], bytes[1], bytes[2], bytes[3]]), len);
    }
    assert_eq!(payload_len([0x78, 0x56, 0x34, 0x12]), 0x12345678);
    assert_eq!(payload_len([0xff, 0xff, 0xff, 0xff]), 0xffff_ffff);
}

#[test]
fn frames_hold_json() {
    let payload = serde_json::to_vec("hello").unwrap();
    let bytes = encode_frame(&payload);
    let len = payload_len([bytes[0], bytes[1], bytes[2], bytes[3]]);
    let text: String = serde_json::from_slice(&bytes[4..4 + len]).unwrap();
    assert_eq!(text, "hello");
}

#[test]
fn responses_are_described_as_they_are_debugged() {
    for response in [
        Response::Success,
        Response::Error {
            error_type: ErrorType::AuthError,
            description: "no \"entry\"\n\u{7f}".to_owned(),
        },
        Response::Error { error_type: ErrorType::Error, description: String::new() },
        Response::AuthMessage {
            auth_message_type: AuthMessageType::Secret,
            auth_message: "Password\t".to_owned(),
        },
    ] {
        assert_eq!(response.describe(), format!("{:?}", response));
    }
}

#[test]
fn names_are_those_of_the_variants() {
    for name in [ErrorType::AuthError, ErrorType::Error] {
        assert_eq!(name.name(), format!("{:?}", name));
    }
    for name in [
        AuthMessageType::Visible,
        AuthMessageType::Secret,
        AuthMessageType::Info,
        AuthMessageType::Error,
    ] {
        assert_eq!(name.name(), format!("{:?}", name));
    }
}

#[test]
fn responses_are_described_with_a_text() {
    let response =
        Response::Error { error_type: ErrorType::AuthError, description: "no".to_owned() };
    assert_eq!(response.describe_with("x"), "Error { error_type: AuthError, description: x }");
    assert_eq!(Response::Success.describe_with("x"), "Success");
}
