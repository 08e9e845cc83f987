//! The wire codec: serialises a `DspPayload` to the frame text
//! `<username> SP <TAG>[ SP <args>]` and parses such text back.
//!
//! The grammar is stated as specification functions over character
//! sequences (`payload_chars` for encoding, `parse_chars` for decoding);
//! the executable codec is verified against them, and `lemma_round_trip`
//! proves that every valid payload decodes back to itself.
//!
//! Parsing is deliberately tolerant: runs of characters are taken greedily
//! up to their cap, free-text bodies consume the remainder of the frame
//! verbatim, and text left over after a complete argument-free or
//! challenge body is ignored rather than rejected.

use vstd::prelude::*;
use vstd::string::*;
use vstd::utf8::{
    char_is_scalar, encode_scalar, encode_utf8, has_width_1_encoding, has_width_2_encoding,
    has_width_3_encoding, is_scalar,
};
use crate::protocol::{
    frameable, is_alnum_char, is_digit_char, is_upper_char, is_username_char, nul_free_chars,
    nul_free_message, valid_message_view, valid_payload_view,
    ChallengeMessage, DspError, DspMessage, DspPayload, ErrorMessage, JoinMessage, MessageMessage,
    MessageType, MessageView, PayloadView, QuitMessage, RescindedMessage, ResponseMessage,
};

verus! {

/// The character classes the grammar takes greedy runs of.
#[derive(Debug, Clone, Copy, PartialEq, Eq, Structural)]
pub enum CharClass {
    /// ASCII alphanumeric or underscore (usernames).
    Username,
    /// ASCII upper-case letters (message tags).
    Upper,
    /// ASCII decimal digits (the challenge difficulty run).
    Digit,
    /// ASCII alphanumeric (the challenge phrase).
    Alnum,
}

pub open spec fn in_class(k: CharClass, c: char) -> bool {
    match k {
        CharClass::Username => is_username_char(c),
        CharClass::Upper => is_upper_char(c),
        CharClass::Digit => is_digit_char(c),
        CharClass::Alnum => is_alnum_char(c),
    }
}

/// Length of the longest prefix of `s` made of class-`k` characters,
/// capped at `cap`: how much a greedy bounded take consumes.
pub open spec fn run_len(s: Seq<char>, k: CharClass, cap: nat) -> nat
    decreases s.len(),
{
    if s.len() == 0 || cap == 0 || !in_class(k, s[0]) {
        0
    } else {
        1 + run_len(s.drop_first(), k, (cap - 1) as nat)
    }
}

/// `run_len` is pinned down by its characteristic properties: `m` matching
/// characters, stopped only by the cap, the end of the string, or a
/// non-matching character.
proof fn lemma_run_len_is(s: Seq<char>, k: CharClass, cap: nat, m: nat)
    requires
        m <= s.len(),
        m <= cap,
        forall|j: int| 0 <= j < m ==> in_class(k, #[trigger] s[j]),
        m < cap && m < s.len() ==> !in_class(k, s[m as int]),
    ensures
        run_len(s, k, cap) == m,
    decreases m,
{
    if m == 0 {
    } else {
        let rest = s.drop_first();
        assert(forall|j: int| 0 <= j < m - 1 ==> #[trigger] rest[j] == s[j + 1]);
        lemma_run_len_is(rest, k, (cap - 1) as nat, (m - 1) as nat);
    }
}

/// The characters of a wire tag.
pub open spec fn tag_chars(t: MessageType) -> Seq<char> {
    match t {
        MessageType::JOIN => seq!['J', 'O', 'I', 'N'],
        MessageType::QUIT => seq!['Q', 'U', 'I', 'T'],
        MessageType::MESSAGE => seq!['M', 'E', 'S', 'S', 'A', 'G', 'E'],
        MessageType::CHALLENGE => seq!['C', 'H', 'A', 'L', 'L', 'E', 'N', 'G', 'E'],
        MessageType::RESCINDED => seq!['R', 'E', 'S', 'C', 'I', 'N', 'D', 'E', 'D'],
        MessageType::RESPONSE => seq!['R', 'E', 'S', 'P', 'O', 'N', 'S', 'E'],
        MessageType::ERROR => seq!['E', 'R', 'R', 'O', 'R'],
    }
}

/// The member of the closed tag set that `s` spells, if any.
pub open spec fn spec_tag_type(s: Seq<char>) -> Option<MessageType> {
    if s == tag_chars(MessageType::JOIN) {
        Some(MessageType::JOIN)
    } else if s == tag_chars(MessageType::QUIT) {
        Some(MessageType::QUIT)
    } else if s == tag_chars(MessageType::MESSAGE) {
        Some(MessageType::MESSAGE)
    } else if s == tag_chars(MessageType::CHALLENGE) {
        Some(MessageType::CHALLENGE)
    } else if s == tag_chars(MessageType::RESCINDED) {
        Some(MessageType::RESCINDED)
    } else if s == tag_chars(MessageType::RESPONSE) {
        Some(MessageType::RESPONSE)
    } else if s == tag_chars(MessageType::ERROR) {
        Some(MessageType::ERROR)
    } else {
        None
    }
}

/// A run of `n` zero characters: the wire image of a challenge difficulty.
pub open spec fn zeros(n: nat) -> Seq<char> {
    Seq::new(n, |i: int| '0')
}

/// The tag and arguments a message renders to, space-separated.
pub open spec fn message_chars(m: MessageView) -> Seq<char> {
    match m {
        MessageView::Join => tag_chars(MessageType::JOIN),
        MessageView::Quit => tag_chars(MessageType::QUIT),
        MessageView::Text(t) => tag_chars(MessageType::MESSAGE) + seq![' '] + t,
        MessageView::Challenge(n, phrase) => tag_chars(MessageType::CHALLENGE) + seq![' ']
            + zeros(n) + seq![' '] + phrase,
        MessageView::Rescinded => tag_chars(MessageType::RESCINDED),
        MessageView::Response(phrase) => tag_chars(MessageType::RESPONSE) + seq![' '] + phrase,
        MessageView::Error(t) => tag_chars(MessageType::ERROR) + seq![' '] + t,
    }
}

/// The full frame text of a payload (without the NUL terminator).
pub open spec fn payload_chars(p: PayloadView) -> Seq<char> {
    p.username + seq![' '] + message_chars(p.message)
}

/// Decoding, as a function of the frame text: the username run, one space,
/// the tag run, then the tag's own argument grammar.
pub open spec fn parse_chars(s: Seq<char>) -> Option<PayloadView> {
    let ul = run_len(s, CharClass::Username, 32) as int;
    if ul == 0 || ul >= s.len() || s[ul] != ' ' {
        None
    } else {
        match parse_tagged_chars(s.skip(ul + 1)) {
            Some(m) => Some(PayloadView { username: s.take(ul), message: m }),
            None => None,
        }
    }
}

/// Decoding of the part after the username: tag run, an optional single
/// space, then the body.
pub open spec fn parse_tagged_chars(rest: Seq<char>) -> Option<MessageView> {
    let tl = run_len(rest, CharClass::Upper, 20) as int;
    if tl == 0 {
        None
    } else {
        let after = rest.skip(tl);
        let body = if after.len() > 0 && after[0] == ' ' {
            after.drop_first()
        } else {
            after
        };
        match spec_tag_type(rest.take(tl)) {
            Some(t) => parse_body_chars(t, body),
            None => None,
        }
    }
}

/// Decoding of a tag's arguments. Free-text bodies take the remainder
/// verbatim; argument-free tags ignore it; a challenge has its own grammar.
pub open spec fn parse_body_chars(t: MessageType, body: Seq<char>) -> Option<MessageView> {
    match t {
        MessageType::JOIN => Some(MessageView::Join),
        MessageType::QUIT => Some(MessageView::Quit),
        MessageType::MESSAGE => Some(MessageView::Text(body)),
        MessageType::CHALLENGE => parse_challenge_chars(body),
        MessageType::RESCINDED => Some(MessageView::Rescinded),
        MessageType::RESPONSE => Some(MessageView::Response(body)),
        MessageType::ERROR => Some(MessageView::Error(body)),
    }
}

/// Challenge arguments: a run of 1 to 99 digits (only its length counts),
/// one space, then up to 64 alphanumeric phrase characters.
pub open spec fn parse_challenge_chars(body: Seq<char>) -> Option<MessageView> {
    let dl = run_len(body, CharClass::Digit, 99) as int;
    if dl == 0 || dl >= body.len() || body[dl] != ' ' {
        None
    } else {
        let after = body.skip(dl + 1);
        let pl = run_len(after, CharClass::Alnum, 64) as int;
        Some(MessageView::Challenge(dl as nat, after.take(pl)))
    }
}

fn class_matches(k: CharClass, c: char) -> (b: bool)
    ensures
        b == in_class(k, c),
{
    let u = c as u32;
    match k {
        CharClass::Username => {
            (u >= 'a' as u32 && u <= 'z' as u32) || (u >= 'A' as u32 && u <= 'Z' as u32) || (u
                >= '0' as u32 && u <= '9' as u32) || c == '_'
        },
        CharClass::Upper => u >= 'A' as u32 && u <= 'Z' as u32,
        CharClass::Digit => u >= '0' as u32 && u <= '9' as u32,
        CharClass::Alnum => {
            (u >= 'a' as u32 && u <= 'z' as u32) || (u >= 'A' as u32 && u <= 'Z' as u32) || (u
                >= '0' as u32 && u <= '9' as u32)
        },
    }
}

/// Greedy bounded scan: counts class-`k` characters from `start`, at most
/// `cap` of them.
fn scan_run(s: &str, n: usize, start: usize, cap: usize, k: CharClass) -> (r: usize)
    requires
        n == s@.len(),
        start <= n,
    ensures
        r == run_len(s@.skip(start as int), k, cap as nat),
        r <= cap,
        start + r <= n,
{
    let mut i = start;
    while i < n && i - start < cap && class_matches(k, s.get_char(i))
        invariant
            n == s@.len(),
            start <= i <= n,
            i - start <= cap,
            forall|j: int| start <= j < i ==> in_class(k, #[trigger] s@[j]),
        decreases n - i,
    {
        i = i + 1;
    }
    proof {
        let sub = s@.skip(start as int);
        let m = (i - start) as nat;
        assert(forall|j: int| 0 <= j < sub.len() ==> #[trigger] sub[j] == s@[start + j]);
        lemma_run_len_is(sub, k, cap as nat, m);
    }
    i - start
}

/// The character content of each literal the codec writes or matches.
proof fn lemma_literals()
    ensures
        "JOIN"@ == tag_chars(MessageType::JOIN),
        "QUIT"@ == tag_chars(MessageType::QUIT),
        "MESSAGE"@ == tag_chars(MessageType::MESSAGE),
        "CHALLENGE"@ == tag_chars(MessageType::CHALLENGE),
        "RESCINDED"@ == tag_chars(MessageType::RESCINDED),
        "RESPONSE"@ == tag_chars(MessageType::RESPONSE),
        "ERROR"@ == tag_chars(MessageType::ERROR),
        " "@ == seq![' '],
        "0"@ == seq!['0'],
{
    reveal_strlit("JOIN");
    reveal_strlit("QUIT");
    reveal_strlit("MESSAGE");
    reveal_strlit("CHALLENGE");
    reveal_strlit("RESCINDED");
    reveal_strlit("RESPONSE");
    reveal_strlit("ERROR");
    reveal_strlit(" ");
    reveal_strlit("0");
    assert("JOIN"@ =~= tag_chars(MessageType::JOIN));
    assert("QUIT"@ =~= tag_chars(MessageType::QUIT));
    assert("MESSAGE"@ =~= tag_chars(MessageType::MESSAGE));
    assert("CHALLENGE"@ =~= tag_chars(MessageType::CHALLENGE));
    assert("RESCINDED"@ =~= tag_chars(MessageType::RESCINDED));
    assert("RESPONSE"@ =~= tag_chars(MessageType::RESPONSE));
    assert("ERROR"@ =~= tag_chars(MessageType::ERROR));
    assert(" "@ =~= seq![' ']);
    assert("0"@ =~= seq!['0']);
}

/// Which member of the closed tag set `tag` spells, if any.
fn tag_to_type(tag: &str) -> (r: Option<MessageType>)
    ensures
        r == spec_tag_type(tag@),
{
    let t = tag.to_owned();
    proof {
        lemma_literals();
    }
    if t == "JOIN".to_owned() {
        Some(MessageType::JOIN)
    } else if t == "QUIT".to_owned() {
        Some(MessageType::QUIT)
    } else if t == "MESSAGE".to_owned() {
        Some(MessageType::MESSAGE)
    } else if t == "CHALLENGE".to_owned() {
        Some(MessageType::CHALLENGE)
    } else if t == "RESCINDED".to_owned() {
        Some(MessageType::RESCINDED)
    } else if t == "RESPONSE".to_owned() {
        Some(MessageType::RESPONSE)
    } else if t == "ERROR".to_owned() {
        Some(MessageType::ERROR)
    } else {
        None
    }
}

/// Parses the challenge argument grammar: digits, a space, a phrase.
fn parse_challenge(body: &str, bn: usize) -> (r: Option<ChallengeMessage>)
    requires
        bn == body@.len(),
    ensures
        match r {
            Some(m) => parse_challenge_chars(body@) == Some(
                MessageView::Challenge(m.n as nat, m.phrase@),
            ),
            None => parse_challenge_chars(body@) == None::<MessageView>,
        },
{
    proof {
        assert(body@.skip(0) =~= body@);
    }
    let dl = scan_run(body, bn, 0, 99, CharClass::Digit);
    if dl == 0 || dl >= bn {
        return None;
    }
    if body.get_char(dl) != ' ' {
        return None;
    }
    let after = body.substring_char(dl + 1, bn);
    let an = bn - (dl + 1);
    proof {
        assert(after@ =~= body@.skip(dl + 1));
        assert(after@.skip(0) =~= after@);
    }
    let pl = scan_run(after, an, 0, 64, CharClass::Alnum);
    let phrase = after.substring_char(0, pl).to_owned();
    proof {
        assert(phrase@ =~= after@.take(pl as int));
    }
    Some(ChallengeMessage { n: dl as u64, phrase })
}

/// Parses the tag run, the optional separating space, and the tag's body.
fn parse_tagged(rest: &str, rn: usize) -> (r: Option<DspMessage>)
    requires
        rn == rest@.len(),
    ensures
        match r {
            Some(m) => parse_tagged_chars(rest@) == Some(m@),
            None => parse_tagged_chars(rest@) == None::<MessageView>,
        },
{
    proof {
        assert(rest@.skip(0) =~= rest@);
    }
    let tl = scan_run(rest, rn, 0, 20, CharClass::Upper);
    if tl == 0 {
        return None;
    }
    let tag = rest.substring_char(0, tl);
    let after = rest.substring_char(tl, rn);
    let an = rn - tl;
    proof {
        assert(tag@ =~= rest@.take(tl as int));
        assert(after@ =~= rest@.skip(tl as int));
    }
    let has_space = an > 0 && after.get_char(0) == ' ';
    let body = if has_space {
        after.substring_char(1, an)
    } else {
        after
    };
    let bn = if has_space {
        an - 1
    } else {
        an
    };
    proof {
        if has_space {
            assert(body@ =~= after@.drop_first());
        }
    }
    match tag_to_type(tag) {
        None => None,
        Some(MessageType::JOIN) => Some(DspMessage::JoinMessage(JoinMessage {})),
        Some(MessageType::QUIT) => Some(DspMessage::QuitMessage(QuitMessage {})),
        Some(MessageType::MESSAGE) => Some(
            DspMessage::MessageMessage(MessageMessage { text: body.to_owned() }),
        ),
        Some(MessageType::CHALLENGE) => match parse_challenge(body, bn) {
            Some(c) => Some(DspMessage::ChallengeMessage(c)),
            None => None,
        },
        Some(MessageType::RESCINDED) => Some(DspMessage::RescindedMessage(RescindedMessage {})),
        Some(MessageType::RESPONSE) => Some(
            DspMessage::ResponseMessage(ResponseMessage { phrase: body.to_owned() }),
        ),
        Some(MessageType::ERROR) => Some(
            DspMessage::ErrorMessage(ErrorMessage { text: body.to_owned() }),
        ),
    }
}

/// Decodes one frame of text into a payload. Fails with `ParseError`
/// exactly on the frames the wire grammar rejects.
pub fn parse_payload(input: String) -> (r: Result<DspPayload, DspError>)
    ensures
        match r {
            Ok(p) => parse_chars(input@) == Some(p@),
            Err(e) => parse_chars(input@) == None::<PayloadView> && e == DspError::ParseError,
        },
{
    let s = input.as_str();
    let n = s.unicode_len();
    proof {
        assert(s@.skip(0) =~= s@);
    }
    let ul = scan_run(s, n, 0, 32, CharClass::Username);
    if ul == 0 || ul >= n {
        return Err(DspError::ParseError);
    }
    if s.get_char(ul) != ' ' {
        return Err(DspError::ParseError);
    }
    let uname = s.substring_char(0, ul).to_owned();
    let rest = s.substring_char(ul + 1, n);
    proof {
        assert(uname@ =~= s@.take(ul as int));
        assert(rest@ =~= s@.skip(ul + 1));
    }
    match parse_tagged(rest, n - (ul + 1)) {
        Some(m) => Ok(DspPayload { username: uname, message: m }),
        None => Err(DspError::ParseError),
    }
}

/// Appends `n` zero characters: the wire image of a challenge difficulty.
fn append_zeros(out: &mut String, n: u64)
    ensures
        final(out)@ == old(out)@ + zeros(n as nat),
{
    proof {
        assert(old(out)@ + zeros(0) =~= old(out)@);
    }
    let mut i: u64 = 0;
    while i < n
        invariant
            i <= n,
            out@ == old(out)@ + zeros(i as nat),
        decreases n - i,
    {
        out.append("0");
        proof {
            lemma_literals();
            assert(old(out)@ + zeros(i as nat) + "0"@ =~= old(out)@ + zeros((i + 1) as nat));
        }
        i = i + 1;
    }
}

/// Renders a payload to its frame text (without the NUL terminator).
pub fn stringify_payload(input: DspPayload) -> (r: String)
    ensures
        r@ == payload_chars(input@),
{
    let ghost pv = input@;
    let DspPayload { username, message } = input;
    let mut out = username;
    out.append(" ");
    match message {
        DspMessage::JoinMessage(_) => {
            out.append("JOIN");
            proof {
                lemma_literals();
                assert(out@ =~= payload_chars(pv));
            }
        },
        DspMessage::QuitMessage(_) => {
            out.append("QUIT");
            proof {
                lemma_literals();
                assert(out@ =~= payload_chars(pv));
            }
        },
        DspMessage::MessageMessage(m) => {
            out.append("MESSAGE");
            out.append(" ");
            out.append(m.text.as_str());
            proof {
                lemma_literals();
                assert(out@ =~= payload_chars(pv));
            }
        },
        DspMessage::ChallengeMessage(m) => {
            out.append("CHALLENGE");
            out.append(" ");
            append_zeros(&mut out, m.n);
            out.append(" ");
            out.append(m.phrase.as_str());
            proof {
                lemma_literals();
                assert(out@ =~= payload_chars(pv));
            }
        },
        DspMessage::RescindedMessage(_) => {
            out.append("RESCINDED");
            proof {
                lemma_literals();
                assert(out@ =~= payload_chars(pv));
            }
        },
        DspMessage::ResponseMessage(m) => {
            out.append("RESPONSE");
            out.append(" ");
            out.append(m.phrase.as_str());
            proof {
                lemma_literals();
                assert(out@ =~= payload_chars(pv));
            }
        },
        DspMessage::ErrorMessage(m) => {
            out.append("ERROR");
            out.append(" ");
            out.append(m.text.as_str());
            proof {
                lemma_literals();
                assert(out@ =~= payload_chars(pv));
            }
        },
    }
    out
}

/// The UTF-8 bytes of a payload's frame text, still without the terminator.
pub fn payload_bytes(input: DspPayload) -> (r: Vec<u8>)
    ensures
        r@ == encode_utf8(payload_chars(input@)),
{
    let s = stringify_payload(input);
    s.as_str().as_bytes_vec()
}

/// The complete wire frame of a payload: its UTF-8 bytes plus the single
/// NUL terminator byte.
pub fn frame_bytes(input: DspPayload) -> (r: Vec<u8>)
    ensures
        r@ == encode_utf8(payload_chars(input@)) + seq![0u8],
{
    let mut b = payload_bytes(input);
    b.push(0u8);
    proof {
        assert(b@ =~= encode_utf8(payload_chars(input@)) + seq![0u8]);
    }
    b
}

/// Every tag spells itself: looking a tag's own characters up in the
/// closed set finds exactly that tag.
proof fn lemma_spec_tag_type_of_tag(t: MessageType)
    ensures
        spec_tag_type(tag_chars(t)) == Some(t),
{
    match t {
        MessageType::JOIN => {
        },
        MessageType::QUIT => {
            assert(tag_chars(MessageType::QUIT)[0] != tag_chars(MessageType::JOIN)[0]);
        },
        MessageType::MESSAGE => {
        },
        MessageType::CHALLENGE => {
        },
        MessageType::RESCINDED => {
            assert(tag_chars(MessageType::RESCINDED)[0] != tag_chars(MessageType::CHALLENGE)[0]);
        },
        MessageType::RESPONSE => {
        },
        MessageType::ERROR => {
        },
    }
}

/// The greedy upper-case run of a frame's tagged part stops exactly at the
/// end of the tag, since what follows is empty or a space.
proof fn lemma_tag_run(t: MessageType, tail: Seq<char>)
    requires
        tail.len() == 0 || tail[0] == ' ',
    ensures
        run_len(tag_chars(t) + tail, CharClass::Upper, 20) == tag_chars(t).len(),
{
    let tag = tag_chars(t);
    let mc = tag + tail;
    assert(1 <= tag.len() <= 20);
    assert(forall|j: int| 0 <= j < tag.len() ==> is_upper_char(#[trigger] tag[j]));
    assert(forall|j: int| 0 <= j < tag.len() ==> in_class(CharClass::Upper, #[trigger] mc[j]));
    if tag.len() < mc.len() {
        assert(mc[tag.len() as int] == tail[0]);
    }
    lemma_run_len_is(mc, CharClass::Upper, 20, tag.len());
}

/// Round trip of the tagged part: the tag and arguments a message renders
/// to parse back to that same message.
proof fn lemma_parse_tagged_round_trip(m: MessageView)
    requires
        valid_message_view(m),
    ensures
        parse_tagged_chars(message_chars(m)) == Some(m),
{
    let mc = message_chars(m);
    match m {
        MessageView::Join => {
            lemma_tag_run(MessageType::JOIN, Seq::empty());
            assert(mc =~= tag_chars(MessageType::JOIN) + Seq::<char>::empty());
            let tl = tag_chars(MessageType::JOIN).len() as int;
            assert(mc.take(tl) =~= tag_chars(MessageType::JOIN));
            lemma_spec_tag_type_of_tag(MessageType::JOIN);
        },
        MessageView::Quit => {
            lemma_tag_run(MessageType::QUIT, Seq::empty());
            assert(mc =~= tag_chars(MessageType::QUIT) + Seq::<char>::empty());
            let tl = tag_chars(MessageType::QUIT).len() as int;
            assert(mc.take(tl) =~= tag_chars(MessageType::QUIT));
            lemma_spec_tag_type_of_tag(MessageType::QUIT);
        },
        MessageView::Rescinded => {
            lemma_tag_run(MessageType::RESCINDED, Seq::empty());
            assert(mc =~= tag_chars(MessageType::RESCINDED) + Seq::<char>::empty());
            let tl = tag_chars(MessageType::RESCINDED).len() as int;
            assert(mc.take(tl) =~= tag_chars(MessageType::RESCINDED));
            lemma_spec_tag_type_of_tag(MessageType::RESCINDED);
        },
        MessageView::Text(t) => {
            let tail = seq![' '] + t;
            assert(mc =~= tag_chars(MessageType::MESSAGE) + tail);
            lemma_tag_run(MessageType::MESSAGE, tail);
            let tl = tag_chars(MessageType::MESSAGE).len() as int;
            assert(mc.take(tl) =~= tag_chars(MessageType::MESSAGE));
            lemma_spec_tag_type_of_tag(MessageType::MESSAGE);
            assert(mc.skip(tl) =~= tail);
            assert(tail.drop_first() =~= t);
        },
        MessageView::Response(ph) => {
            let tail = seq![' '] + ph;
            assert(mc =~= tag_chars(MessageType::RESPONSE) + tail);
            lemma_tag_run(MessageType::RESPONSE, tail);
            let tl = tag_chars(MessageType::RESPONSE).len() as int;
            assert(mc.take(tl) =~= tag_chars(MessageType::RESPONSE));
            lemma_spec_tag_type_of_tag(MessageType::RESPONSE);
            assert(mc.skip(tl) =~= tail);
            assert(tail.drop_first() =~= ph);
        },
        MessageView::Error(t) => {
            let tail = seq![' '] + t;
            assert(mc =~= tag_chars(MessageType::ERROR) + tail);
            lemma_tag_run(MessageType::ERROR, tail);
            let tl = tag_chars(MessageType::ERROR).len() as int;
            assert(mc.take(tl) =~= tag_chars(MessageType::ERROR));
            lemma_spec_tag_type_of_tag(MessageType::ERROR);
            assert(mc.skip(tl) =~= tail);
            assert(tail.drop_first() =~= t);
        },
        MessageView::Challenge(n, ph) => {
            let tail = seq![' '] + zeros(n) + seq![' '] + ph;
            assert(mc =~= tag_chars(MessageType::CHALLENGE) + tail);
            lemma_tag_run(MessageType::CHALLENGE, tail);
            let tl = tag_chars(MessageType::CHALLENGE).len() as int;
            assert(mc.take(tl) =~= tag_chars(MessageType::CHALLENGE));
            lemma_spec_tag_type_of_tag(MessageType::CHALLENGE);
            assert(mc.skip(tl) =~= tail);
            let body = tail.drop_first();
            assert(body =~= zeros(n) + seq![' '] + ph);
            // the digit run is exactly the zeros the encoder emitted
            assert(forall|j: int| 0 <= j < n ==> #[trigger] body[j] == '0');
            assert(forall|j: int|
                0 <= j < n ==> in_class(CharClass::Digit, #[trigger] body[j]));
            assert(body.len() == n + 1 + ph.len());
            assert(body[n as int] == ' ');
            lemma_run_len_is(body, CharClass::Digit, 99, n);
            let after = body.skip(n as int + 1);
            assert(after =~= ph);
            // the phrase run takes the whole phrase
            assert(forall|j: int|
                0 <= j < after.len() ==> in_class(CharClass::Alnum, #[trigger] after[j]));
            lemma_run_len_is(after, CharClass::Alnum, 64, after.len());
            assert(after.take(after.len() as int) =~= ph);
            assert(parse_challenge_chars(body) == Some(MessageView::Challenge(n, ph)));
        },
    }
}

/// Round-trip law: decoding the encoding of any valid payload yields that
/// payload again. For a challenge, the difficulty field is by construction
/// the count of zero characters the encoder emitted, so it too survives
/// the trip exactly.
pub proof fn lemma_round_trip(p: PayloadView)
    requires
        valid_payload_view(p),
    ensures
        parse_chars(payload_chars(p)) == Some(p),
{
    let u = p.username;
    let mc = message_chars(p.message);
    let s = payload_chars(p);
    assert(forall|j: int| 0 <= j < u.len() ==> #[trigger] s[j] == u[j]);
    assert(forall|j: int| 0 <= j < u.len() ==> in_class(CharClass::Username, #[trigger] s[j]));
    assert(s.len() == u.len() + 1 + mc.len());
    assert(s[u.len() as int] == ' ');
    lemma_run_len_is(s, CharClass::Username, 32, u.len());
    assert(s.take(u.len() as int) =~= u);
    assert(s.skip(u.len() as int + 1) =~= mc);
    lemma_parse_tagged_round_trip(p.message);
    assert(parse_chars(s) == Some(PayloadView { username: u, message: p.message }));
    assert(PayloadView { username: u, message: p.message } =~= p);
}

/// The UTF-8 encoding of a scalar other than NUL contains no zero byte:
/// a one-byte encoding is the scalar itself, and every byte of a longer
/// encoding has its high bit set.
proof fn lemma_encode_scalar_nul_free(v: u32)
    requires
        is_scalar(v),
        v != 0,
    ensures
        forall|i: int|
            0 <= i < encode_scalar(v).len() ==> #[trigger] encode_scalar(v)[i] != 0,
{
    if has_width_1_encoding(v) {
        assert(v != 0 && v <= 0x7F ==> ((v & 0x7F) as u8) != 0) by (bit_vector);
    } else if has_width_2_encoding(v) {
        assert((0xC0u8 | (((v >> 6) & 0x1F) as u8)) != 0) by (bit_vector);
        assert((0x80u8 | ((v & 0x3F) as u8)) != 0) by (bit_vector);
    } else if has_width_3_encoding(v) {
        assert((0xE0u8 | (((v >> 12) & 0x0F) as u8)) != 0) by (bit_vector);
        assert((0x80u8 | (((v >> 6) & 0x3F) as u8)) != 0) by (bit_vector);
        assert((0x80u8 | ((v & 0x3F) as u8)) != 0) by (bit_vector);
    } else {
        assert((0xF0u8 | (((v >> 18) & 0x7) as u8)) != 0) by (bit_vector);
        assert((0x80u8 | (((v >> 12) & 0x3F) as u8)) != 0) by (bit_vector);
        assert((0x80u8 | (((v >> 6) & 0x3F) as u8)) != 0) by (bit_vector);
        assert((0x80u8 | ((v & 0x3F) as u8)) != 0) by (bit_vector);
    }
}

/// The UTF-8 encoding of a NUL-free character sequence is a NUL-free byte
/// sequence, so the frame terminator cannot collide with frame content.
pub proof fn lemma_encode_utf8_nul_free(chars: Seq<char>)
    requires
        nul_free_chars(chars),
    ensures
        forall|i: int| 0 <= i < encode_utf8(chars).len() ==> #[trigger] encode_utf8(chars)[i] != 0,
    decreases chars.len(),
{
    if chars.len() > 0 {
        char_is_scalar(chars[0]);
        lemma_encode_scalar_nul_free(chars[0] as u32);
        let rest = chars.drop_first();
        assert(forall|j: int| 0 <= j < rest.len() ==> #[trigger] rest[j] == chars[j + 1]);
        lemma_encode_utf8_nul_free(rest);
        let head = encode_scalar(chars[0] as u32);
        let tail = encode_utf8(rest);
        assert forall|i: int| 0 <= i < encode_utf8(chars).len() implies #[trigger] encode_utf8(
            chars,
        )[i] != 0 by {
            if i < head.len() {
                assert(encode_utf8(chars)[i] == head[i]);
            } else {
                assert(encode_utf8(chars)[i] == tail[i - head.len()]);
            }
        }
    }
}

/// The frame text of a frameable payload is NUL-free: the structured parts
/// are printable by construction, the text fields by assumption.
pub proof fn lemma_payload_chars_nul_free(p: PayloadView)
    requires
        frameable(p),
    ensures
        nul_free_chars(payload_chars(p)),
{
    let u = p.username;
    let mc = message_chars(p.message);
    let s = payload_chars(p);
    lemma_message_chars_nul_free(p.message);
    assert forall|i: int| 0 <= i < s.len() implies (#[trigger] s[i]) as u32 != 0 by {
        if i < u.len() {
            assert(s[i] == u[i]);
            assert(is_username_char(u[i]));
        } else if i == u.len() {
            assert(s[i] == ' ');
        } else {
            assert(s[i] == mc[i - u.len() - 1]);
        }
    }
}

/// The tag and arguments of a valid message are NUL-free characters.
proof fn lemma_message_chars_nul_free(m: MessageView)
    requires
        valid_message_view(m),
        nul_free_message(m),
    ensures
        nul_free_chars(message_chars(m)),
{
    let mc = message_chars(m);
    match m {
        MessageView::Join | MessageView::Quit | MessageView::Rescinded => {
            assert(forall|j: int|
                0 <= j < mc.len() ==> is_upper_char(#[trigger] mc[j]));
        },
        MessageView::Text(t) => {
            lemma_tag_space_text_nul_free(tag_chars(MessageType::MESSAGE), t);
        },
        MessageView::Response(t) => {
            lemma_tag_space_text_nul_free(tag_chars(MessageType::RESPONSE), t);
        },
        MessageView::Error(t) => {
            lemma_tag_space_text_nul_free(tag_chars(MessageType::ERROR), t);
        },
        MessageView::Challenge(n, ph) => {
            let tag = tag_chars(MessageType::CHALLENGE);
            assert forall|j: int| 0 <= j < mc.len() implies (#[trigger] mc[j]) as u32 != 0 by {
                if j < tag.len() {
                    assert(mc[j] == tag[j]);
                    assert(is_upper_char(tag[j]));
                } else if j == tag.len() {
                    assert(mc[j] == ' ');
                } else if j < tag.len() + 1 + n {
                    assert(mc[j] == zeros(n)[j - tag.len() - 1]);
                    assert(mc[j] == '0');
                } else if j == tag.len() + 1 + n {
                    assert(mc[j] == ' ');
                } else {
                    assert(mc[j] == ph[j - tag.len() - n - 2]);
                    assert(is_alnum_char(ph[j - tag.len() - n - 2]));
                }
            }
        },
    }
}

/// A tag, one space, and NUL-free text make a NUL-free sequence.
proof fn lemma_tag_space_text_nul_free(tag: Seq<char>, t: Seq<char>)
    requires
        forall|j: int| 0 <= j < tag.len() ==> is_upper_char(#[trigger] tag[j]),
        nul_free_chars(t),
    ensures
        nul_free_chars(tag + seq![' '] + t),
{
    let mc = tag + seq![' '] + t;
    assert forall|j: int| 0 <= j < mc.len() implies (#[trigger] mc[j]) as u32 != 0 by {
        if j < tag.len() {
            assert(mc[j] == tag[j]);
        } else if j == tag.len() {
            assert(mc[j] == ' ');
        } else {
            assert(mc[j] == t[j - tag.len() - 1]);
        }
    }
}

} // verus!
