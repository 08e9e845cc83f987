use uiop_dsp::client::{DspReader, ReadStep};
use uiop_dsp::codec::frame_bytes;
use uiop_dsp::protocol::{
    ChallengeMessage, DspError, DspMessage, DspPayload, JoinMessage, MessageMessage, QuitMessage,
};

fn join(user: &str) -> DspPayload {
    DspPayload {
        username: String::from(user),
        message: DspMessage::JoinMessage(JoinMessage {}),
    }
}

fn quit(user: &str) -> DspPayload {
    DspPayload {
        username: String::from(user),
        message: DspMessage::QuitMessage(QuitMessage {}),
    }
}

#[test]
fn check_payload_buffer_read() {
    let text = format!("testuser MESSAGE test");
    let text_buf = text.as_bytes();
    let terminator_buf = &[0u8];
    let concat_buf = [text_buf, terminator_buf].concat();
    let mut reader = DspReader::new();
    reader.feed(&concat_buf, concat_buf.len());
    let result = reader.next_payload();
    assert_eq!(
        result,
        ReadStep::Payload(DspPayload {
            username: String::from("testuser"),
            message: DspMessage::MessageMessage(MessageMessage {
                text: String::from("test"),
            }),
        })
    );
}

#[test]
fn two_concatenated_frames_in_order() {
    // two frames buffered together come out one by one, in order, with no
    // terminator leaking into either payload
    let bytes = b"alice JOIN\0bob QUIT\0";
    let mut reader = DspReader::new();
    reader.feed(bytes, bytes.len());
    assert_eq!(reader.next_payload(), ReadStep::Payload(join("alice")));
    assert_eq!(reader.next_payload(), ReadStep::Payload(quit("bob")));
    assert_eq!(reader.next_payload(), ReadStep::NeedMore);
}

#[test]
fn eof_is_connection_closed_not_a_decode_error() {
    let mut reader = DspReader::new();
    reader.feed(&[], 0);
    assert_eq!(
        reader.next_payload(),
        ReadStep::Failed(DspError::ConnectionClosed)
    );
}

#[test]
fn invalid_utf8_frame_is_skipped() {
    // a frame of invalid UTF-8 is skipped and the reader proceeds to the
    // next frame without failing
    let mut bytes: Vec<u8> = vec![0xff, 0xfe, 0x80, 0x00];
    bytes.extend_from_slice(b"bob QUIT\0");
    let mut reader = DspReader::new();
    reader.feed(&bytes, bytes.len());
    assert_eq!(reader.next_payload(), ReadStep::Payload(quit("bob")));
}

#[test]
fn malformed_frame_fails_the_read() {
    let bytes = b"alice WHAT is this\0";
    let mut reader = DspReader::new();
    reader.feed(bytes, bytes.len());
    assert_eq!(reader.next_payload(), ReadStep::Failed(DspError::ParseError));
}

#[test]
fn partial_frame_waits_for_more_bytes() {
    let mut reader = DspReader::new();
    let first = b"alice JO";
    reader.feed(first, first.len());
    assert_eq!(reader.next_payload(), ReadStep::NeedMore);
    let second = b"IN\0";
    reader.feed(second, second.len());
    assert_eq!(reader.next_payload(), ReadStep::Payload(join("alice")));
}

#[test]
fn unterminated_final_frame_then_eof() {
    // a stream that ends without a final terminator still delivers the
    // last frame, then reports the close
    let mut reader = DspReader::new();
    let bytes = b"alice JOIN";
    reader.feed(bytes, bytes.len());
    assert_eq!(reader.next_payload(), ReadStep::NeedMore);
    reader.feed(&[], 0);
    assert_eq!(reader.next_payload(), ReadStep::Payload(join("alice")));
    assert_eq!(
        reader.next_payload(),
        ReadStep::Failed(DspError::ConnectionClosed)
    );
}

#[test]
fn encoded_frames_read_back_in_order() {
    // the reader inverts the writer: frames produced by the codec come
    // back as the very payloads they encode
    let p1 = DspPayload {
        username: String::from("alice"),
        message: DspMessage::MessageMessage(MessageMessage {
            text: String::from("hello bob"),
        }),
    };
    let p2 = DspPayload {
        username: String::from("server"),
        message: DspMessage::ChallengeMessage(ChallengeMessage {
            n: 4,
            phrase: String::from("w0rk"),
        }),
    };
    let mut bytes = frame_bytes(p1.clone());
    bytes.extend(frame_bytes(p2.clone()));
    let mut reader = DspReader::new();
    reader.feed(&bytes, bytes.len());
    assert_eq!(reader.next_payload(), ReadStep::Payload(p1));
    assert_eq!(reader.next_payload(), ReadStep::Payload(p2));
    assert_eq!(reader.next_payload(), ReadStep::NeedMore);
}

#[test]
fn feed_respects_read_count() {
    // only the first n_read bytes of the chunk belong to the stream
    let mut reader = DspReader::new();
    let chunk = b"alice JOIN\0garbage that was never read";
    reader.feed(chunk, 11);
    assert_eq!(reader.next_payload(), ReadStep::Payload(join("alice")));
    assert_eq!(reader.next_payload(), ReadStep::NeedMore);
}
