use uiop_dsp::codec::{frame_bytes, parse_payload, payload_bytes, stringify_payload};
use uiop_dsp::protocol::{
    ChallengeMessage, DspError, DspMessage, DspPayload, ErrorMessage, JoinMessage, MessageMessage,
    QuitMessage, RescindedMessage, ResponseMessage,
};

fn serde_check(text: &str, data: DspPayload) {
    let de = parse_payload(text.to_string());
    assert_eq!(de, Ok(data));
    let ser = stringify_payload(de.unwrap());
    assert_eq!(ser, text.to_string());
}

#[test]
fn check_message_encoding() {
    serde_check(
        "testuser JOIN",
        DspPayload {
            username: String::from("testuser"),
            message: DspMessage::JoinMessage(JoinMessage {}),
        },
    );
    serde_check(
        "testuser MESSAGE This is a great message !@#%^&* 123 :)",
        DspPayload {
            username: String::from("testuser"),
            message: DspMessage::MessageMessage(MessageMessage {
                text: String::from("This is a great message !@#%^&* 123 :)"),
            }),
        },
    );
}

fn payload(message: DspMessage) -> DspPayload {
    DspPayload {
        username: String::from("alice"),
        message,
    }
}

fn round_trips(p: DspPayload) {
    let text = stringify_payload(p.clone());
    assert_eq!(parse_payload(text), Ok(p));
}

#[test]
fn round_trip_join() {
    round_trips(payload(DspMessage::JoinMessage(JoinMessage {})));
}

#[test]
fn round_trip_quit() {
    round_trips(payload(DspMessage::QuitMessage(QuitMessage {})));
}

#[test]
fn round_trip_text() {
    round_trips(payload(DspMessage::MessageMessage(MessageMessage {
        text: String::from("hello there, world!"),
    })));
    round_trips(payload(DspMessage::MessageMessage(MessageMessage {
        text: String::from(""),
    })));
}

#[test]
fn round_trip_rescinded() {
    round_trips(payload(DspMessage::RescindedMessage(RescindedMessage {})));
}

#[test]
fn round_trip_response() {
    round_trips(payload(DspMessage::ResponseMessage(ResponseMessage {
        phrase: String::from("sphinx"),
    })));
}

#[test]
fn round_trip_error() {
    round_trips(payload(DspMessage::ErrorMessage(ErrorMessage {
        text: String::from("you broke it"),
    })));
}

#[test]
fn round_trip_challenge_difficulty_is_a_count() {
    // the difficulty travels as a run of zeros and comes back as its count
    let p = payload(DspMessage::ChallengeMessage(ChallengeMessage {
        n: 5,
        phrase: String::from("abc123"),
    }));
    let text = stringify_payload(p.clone());
    assert_eq!(text, "alice CHALLENGE 00000 abc123");
    assert_eq!(parse_payload(text), Ok(p));
}

#[test]
fn round_trip_challenge_empty_phrase() {
    round_trips(payload(DspMessage::ChallengeMessage(ChallengeMessage {
        n: 1,
        phrase: String::from(""),
    })));
}

#[test]
fn challenge_decode_counts_any_digits() {
    // decoding measures the digit run's length, not its digits
    let got = parse_payload(String::from("bob CHALLENGE 123 xyz")).unwrap();
    assert_eq!(
        got,
        DspPayload {
            username: String::from("bob"),
            message: DspMessage::ChallengeMessage(ChallengeMessage {
                n: 3,
                phrase: String::from("xyz"),
            }),
        }
    );
}

#[test]
fn parse_rejects_bad_frames() {
    // no space / no tag
    assert_eq!(parse_payload(String::from("alice")), Err(DspError::ParseError));
    // empty input
    assert_eq!(parse_payload(String::from("")), Err(DspError::ParseError));
    // bad username character
    assert_eq!(parse_payload(String::from(" alice JOIN")), Err(DspError::ParseError));
    // username longer than 32 characters
    assert_eq!(
        parse_payload(String::from("a123456789012345678901234567890123 JOIN")),
        Err(DspError::ParseError)
    );
    // tag outside the closed set
    assert_eq!(parse_payload(String::from("alice NOPE hi")), Err(DspError::ParseError));
    // lower-case tag
    assert_eq!(parse_payload(String::from("alice join")), Err(DspError::ParseError));
    // challenge without its space or digits
    assert_eq!(parse_payload(String::from("alice CHALLENGE 000")), Err(DspError::ParseError));
    assert_eq!(parse_payload(String::from("alice CHALLENGE  x")), Err(DspError::ParseError));
}

#[test]
fn username_at_cap_round_trips() {
    // 32 characters exactly
    let name = "a2345678901234567890123456789012";
    assert_eq!(name.len(), 32);
    let p = DspPayload {
        username: String::from(name),
        message: DspMessage::JoinMessage(JoinMessage {}),
    };
    round_trips(p);
}

#[test]
fn frame_bytes_appends_terminator() {
    let p = payload(DspMessage::MessageMessage(MessageMessage {
        text: String::from("hi"),
    }));
    assert_eq!(payload_bytes(p.clone()), b"alice MESSAGE hi".to_vec());
    assert_eq!(frame_bytes(p), b"alice MESSAGE hi\0".to_vec());
}
