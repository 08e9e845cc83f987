//! Data model of the DSP wire protocol: the closed set of message types, the
//! tagged message union, and the payload (a username paired with a message),
//! together with the specification-level view of each type and the validity
//! predicates that the codec's round-trip guarantees are stated over.

use vstd::prelude::*;

verus! {

/// The closed set of wire tags, case-sensitive upper-case ASCII.
#[derive(Debug, Clone, Copy, PartialEq, Eq, Structural)]
pub enum MessageType {
    JOIN,
    QUIT,
    MESSAGE,
    CHALLENGE,
    RESCINDED,
    RESPONSE,
    ERROR,
}

#[derive(Debug, Clone, PartialEq, Eq)]
pub struct JoinMessage {}

#[derive(Debug, Clone, PartialEq, Eq)]
pub struct QuitMessage {}

#[derive(Debug, Clone, PartialEq, Eq)]
pub struct MessageMessage {
    pub text: String,
}

/// A rate-limiting puzzle. `n` is the difficulty, carried on the wire as a
/// run of `n` zero characters, not as a literal number.
#[derive(Debug, Clone, PartialEq, Eq)]
pub struct ChallengeMessage {
    pub n: u64,
    pub phrase: String,
}

#[derive(Debug, Clone, PartialEq, Eq)]
pub struct RescindedMessage {}

#[derive(Debug, Clone, PartialEq, Eq)]
pub struct ResponseMessage {
    pub phrase: String,
}

#[derive(Debug, Clone, PartialEq, Eq)]
pub struct ErrorMessage {
    pub text: String,
}

/// One protocol message, keyed by `MessageType`.
#[derive(Debug, Clone, PartialEq, Eq)]
pub enum DspMessage {
    JoinMessage(JoinMessage),
    QuitMessage(QuitMessage),
    MessageMessage(MessageMessage),
    ChallengeMessage(ChallengeMessage),
    RescindedMessage(RescindedMessage),
    ResponseMessage(ResponseMessage),
    ErrorMessage(ErrorMessage),
}

/// One unit of wire traffic: a username paired with a message.
#[derive(Debug, Clone, PartialEq, Eq)]
pub struct DspPayload {
    pub username: String,
    pub message: DspMessage,
}

/// Specification-level image of a `DspMessage`: text fields become character
/// sequences and the challenge difficulty becomes a mathematical count.
#[verifier::ext_equal]
pub enum MessageView {
    Join,
    Quit,
    Text(Seq<char>),
    Challenge(nat, Seq<char>),
    Rescinded,
    Response(Seq<char>),
    Error(Seq<char>),
}

/// Specification-level image of a `DspPayload`.
#[verifier::ext_equal]
pub struct PayloadView {
    pub username: Seq<char>,
    pub message: MessageView,
}

impl View for DspMessage {
    type V = MessageView;

    open spec fn view(&self) -> MessageView {
        match self {
            DspMessage::JoinMessage(_) => MessageView::Join,
            DspMessage::QuitMessage(_) => MessageView::Quit,
            DspMessage::MessageMessage(m) => MessageView::Text(m.text@),
            DspMessage::ChallengeMessage(m) => MessageView::Challenge(m.n as nat, m.phrase@),
            DspMessage::RescindedMessage(_) => MessageView::Rescinded,
            DspMessage::ResponseMessage(m) => MessageView::Response(m.phrase@),
            DspMessage::ErrorMessage(m) => MessageView::Error(m.text@),
        }
    }
}

impl View for DspPayload {
    type V = PayloadView;

    open spec fn view(&self) -> PayloadView {
        PayloadView { username: self.username@, message: self.message@ }
    }
}

/// A username character: ASCII alphanumeric or underscore.
pub open spec fn is_username_char(c: char) -> bool {
    is_alnum_char(c) || c == '_'
}

/// An ASCII letter or digit.
pub open spec fn is_alnum_char(c: char) -> bool {
    is_digit_char(c) || ('a' as u32) <= (c as u32) <= ('z' as u32) || ('A' as u32) <= (c
        as u32) <= ('Z' as u32)
}

/// An ASCII decimal digit.
pub open spec fn is_digit_char(c: char) -> bool {
    ('0' as u32) <= (c as u32) <= ('9' as u32)
}

/// An ASCII upper-case letter, the only characters wire tags are made of.
pub open spec fn is_upper_char(c: char) -> bool {
    ('A' as u32) <= (c as u32) <= ('Z' as u32)
}

/// A well-formed username: 1 to 32 characters, alphanumeric or underscore.
pub open spec fn valid_username(u: Seq<char>) -> bool {
    &&& 1 <= u.len() <= 32
    &&& forall|i: int| 0 <= i < u.len() ==> is_username_char(#[trigger] u[i])
}

/// A message the codec can reproduce exactly: a challenge needs a difficulty
/// the wire can carry (1 to 99 zeros) and a phrase of at most 64 alphanumeric
/// characters; every other variant is unconstrained.
pub open spec fn valid_message_view(m: MessageView) -> bool {
    match m {
        MessageView::Challenge(n, phrase) => {
            &&& 1 <= n <= 99
            &&& phrase.len() <= 64
            &&& forall|i: int| 0 <= i < phrase.len() ==> is_alnum_char(#[trigger] phrase[i])
        },
        _ => true,
    }
}

/// A payload that encodes to a frame which decodes back to the same payload.
pub open spec fn valid_payload_view(p: PayloadView) -> bool {
    valid_username(p.username) && valid_message_view(p.message)
}

/// No character of `s` is the NUL character that terminates frames.
pub open spec fn nul_free_chars(s: Seq<char>) -> bool {
    forall|i: int| 0 <= i < s.len() ==> (#[trigger] s[i]) as u32 != 0
}

/// The free-text fields hold no NUL character. The structured fields never
/// can: usernames, tags, digits and challenge phrases are drawn from
/// printable classes.
pub open spec fn nul_free_message(m: MessageView) -> bool {
    match m {
        MessageView::Text(t) => nul_free_chars(t),
        MessageView::Response(t) => nul_free_chars(t),
        MessageView::Error(t) => nul_free_chars(t),
        _ => true,
    }
}

/// A payload whose frame can be carried on the wire: valid, and free of
/// the NUL terminator in every text field.
pub open spec fn frameable(p: PayloadView) -> bool {
    valid_payload_view(p) && nul_free_message(p.message)
}

/// Why the protocol engine failed: the taxonomy of fatal stream errors.
#[derive(Debug, Clone, Copy, PartialEq, Eq, Structural)]
pub enum DspError {
    /// The read side observed end-of-stream.
    ConnectionClosed,
    /// A frame violated the wire grammar, desynchronising the stream.
    ParseError,
    /// The underlying write or flush failed.
    IoError,
}

} // verus!
