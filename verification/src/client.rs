//! The frame reader: accumulates the raw bytes a connection delivers,
//! splits them at NUL terminators into frames, and turns each frame into a
//! decoded payload, skipping frames that are not valid UTF-8.
//!
//! `drain` is the specification of that process as a function of the
//! buffered bytes; `DspReader::next_payload` is verified against it. The
//! I/O that fills the buffer, and the loop that awaits it, live outside
//! the library and only ever call `feed` and `next_payload`.

use vstd::prelude::*;
use vstd::utf8::{
    decode_utf8, encode_utf8, encode_utf8_decode_utf8, encode_utf8_valid_utf8, valid_utf8,
};
use crate::codec::{
    lemma_encode_utf8_nul_free, lemma_payload_chars_nul_free, lemma_round_trip, parse_chars,
    payload_chars,
};
use crate::protocol::{frameable, DspError, DspPayload, PayloadView};

verus! {

/// Index of the first NUL terminator in `b`, or `b.len()` if none.
pub open spec fn first_nul(b: Seq<u8>) -> nat
    decreases b.len(),
{
    if b.len() == 0 {
        0
    } else if b[0] == 0 {
        0
    } else {
        1 + first_nul(b.drop_first())
    }
}

/// `first_nul` is pinned down by its characteristic properties: no NUL
/// before `i`, and a NUL at `i` unless `i` is the end.
proof fn lemma_first_nul_is(b: Seq<u8>, i: int)
    requires
        0 <= i <= b.len(),
        forall|j: int| 0 <= j < i ==> #[trigger] b[j] != 0,
        i < b.len() ==> b[i] == 0,
    ensures
        first_nul(b) == i,
    decreases i,
{
    if i == 0 {
    } else {
        let rest = b.drop_first();
        assert(forall|j: int| 0 <= j < i - 1 ==> #[trigger] rest[j] == b[j + 1]);
        lemma_first_nul_is(rest, i - 1);
    }
}

/// What `first_nul` guarantees of every buffer.
proof fn lemma_first_nul_bounds(b: Seq<u8>)
    ensures
        first_nul(b) <= b.len(),
        first_nul(b) < b.len() ==> b[first_nul(b) as int] == 0,
        forall|j: int| 0 <= j < first_nul(b) ==> #[trigger] b[j] != 0,
    decreases b.len(),
{
    if b.len() == 0 || b[0] == 0 {
    } else {
        let rest = b.drop_first();
        lemma_first_nul_bounds(rest);
        assert forall|j: int| 0 <= j < first_nul(b) implies #[trigger] b[j] != 0 by {
            if j > 0 {
                assert(rest[j - 1] == b[j]);
                assert(rest[j - 1] != 0);
            }
        }
    }
}

/// Specification-level image of one `next_payload` outcome.
pub enum ReadStepView {
    /// No complete frame is buffered and the stream is still open.
    NeedMore,
    /// A frame decoded to this payload.
    Payload(PayloadView),
    /// The stream is finished: closed, or desynchronised by a bad frame.
    Failed(DspError),
}

/// One `next_payload` outcome together with the bytes it leaves buffered.
pub struct DrainOut {
    pub step: ReadStepView,
    pub rest: Seq<u8>,
}

/// What pulling the next payload out of buffered bytes `b` yields, with
/// `closed` telling whether the stream has reported end-of-stream.
///
/// Complete frames are taken in order; a frame of invalid UTF-8 is skipped
/// and the next frame tried; a frame that violates the grammar fails the
/// read with `ParseError`. Without a complete frame, an open stream asks
/// for more bytes; a closed stream treats any leftover bytes as a final
/// unterminated frame and then fails with `ConnectionClosed`.
pub open spec fn drain(b: Seq<u8>, closed: bool) -> DrainOut
    decreases b.len(),
{
    let i = first_nul(b);
    if i < b.len() {
        let frame = b.take(i as int);
        let rest = b.skip(i as int + 1);
        if !valid_utf8(frame) {
            drain(rest, closed)
        } else {
            match parse_chars(decode_utf8(frame)) {
                Some(p) => DrainOut { step: ReadStepView::Payload(p), rest },
                None => DrainOut { step: ReadStepView::Failed(DspError::ParseError), rest },
            }
        }
    } else if !closed {
        DrainOut { step: ReadStepView::NeedMore, rest: b }
    } else if b.len() > 0 {
        if !valid_utf8(b) {
            DrainOut { step: ReadStepView::Failed(DspError::ConnectionClosed), rest: Seq::empty() }
        } else {
            match parse_chars(decode_utf8(b)) {
                Some(p) => DrainOut { step: ReadStepView::Payload(p), rest: Seq::empty() },
                None => DrainOut {
                    step: ReadStepView::Failed(DspError::ParseError),
                    rest: Seq::empty(),
                },
            }
        }
    } else {
        DrainOut { step: ReadStepView::Failed(DspError::ConnectionClosed), rest: Seq::empty() }
    }
}

/// One outcome of asking the reader for the next payload.
#[derive(Debug, PartialEq, Eq)]
pub enum ReadStep {
    /// No complete frame buffered yet: the caller should read more bytes
    /// from the stream and `feed` them in.
    NeedMore,
    /// The next frame, decoded.
    Payload(DspPayload),
    /// The stream is finished; no further payload will be produced.
    Failed(DspError),
}

/// Specification-level image of a `DspReader`: the buffered bytes and
/// whether end-of-stream has been observed.
pub struct ReaderView {
    pub data: Seq<u8>,
    pub closed: bool,
}

/// The read half of a connection, above the byte level: it owns the bytes
/// read so far and hands out one decoded payload at a time.
pub struct DspReader {
    buf: Vec<u8>,
    closed: bool,
}

impl View for DspReader {
    type V = ReaderView;

    closed spec fn view(&self) -> ReaderView {
        ReaderView { data: self.buf@, closed: self.closed }
    }
}

/// Relies on `String::from_utf8`: it accepts exactly the byte sequences
/// that are valid UTF-8 and decodes them to their character sequence, as
/// vstd's UTF-8 model states.
#[verifier::external_body]
fn utf8_to_string(bytes: Vec<u8>) -> (r: Option<String>)
    ensures
        r is Some <==> valid_utf8(bytes@),
        r matches Some(s) ==> s@ == decode_utf8(bytes@),
{
    String::from_utf8(bytes).ok()
}

/// Removes the frame ending at the NUL at index `i`: returns the bytes
/// before it and leaves the bytes after it in the buffer.
fn split_at_nul(buf: &mut Vec<u8>, i: usize) -> (frame: Vec<u8>)
    requires
        i < old(buf)@.len(),
    ensures
        frame@ == old(buf)@.take(i as int),
        final(buf)@ == old(buf)@.skip(i as int + 1),
{
    let n = buf.len();
    let mut frame: Vec<u8> = Vec::new();
    let mut j: usize = 0;
    while j < i
        invariant
            j <= i < n == buf@.len(),
            buf@ == old(buf)@,
            frame@ == buf@.take(j as int),
        decreases i - j,
    {
        frame.push(buf[j]);
        proof {
            assert(buf@.take(j as int).push(buf@[j as int]) =~= buf@.take(j as int + 1));
        }
        j = j + 1;
    }
    let mut rest: Vec<u8> = Vec::new();
    let mut k: usize = i + 1;
    while k < n
        invariant
            i + 1 <= k <= n == buf@.len(),
            buf@ == old(buf)@,
            rest@ == buf@.subrange(i as int + 1, k as int),
        decreases n - k,
    {
        rest.push(buf[k]);
        proof {
            assert(buf@.subrange(i as int + 1, k as int).push(buf@[k as int]) =~= buf@.subrange(
                i as int + 1,
                k as int + 1,
            ));
        }
        k = k + 1;
    }
    *buf = rest;
    frame
}

/// Index of the first NUL in the buffer, if one is present.
fn find_nul(buf: &Vec<u8>) -> (r: Option<usize>)
    ensures
        match r {
            Some(i) => i == first_nul(buf@) && i < buf@.len(),
            None => first_nul(buf@) == buf@.len(),
        },
{
    let n = buf.len();
    let mut j: usize = 0;
    while j < n
        invariant
            j <= n == buf@.len(),
            forall|t: int| 0 <= t < j ==> #[trigger] buf@[t] != 0,
        decreases n - j,
    {
        if buf[j] == 0 {
            proof {
                lemma_first_nul_is(buf@, j as int);
            }
            return Some(j);
        }
        j = j + 1;
    }
    proof {
        lemma_first_nul_is(buf@, n as int);
    }
    None
}

impl DspReader {
    /// A reader with nothing buffered on a stream still open.
    pub fn new() -> (r: DspReader)
        ensures
            r@.data == Seq::<u8>::empty(),
            r@.closed == false,
    {
        DspReader { buf: Vec::new(), closed: false }
    }

    /// Accounts for one read from the stream: the first `n_read` bytes of
    /// `chunk` join the buffer, and a zero-length read — end-of-stream —
    /// closes the reader for good.
    pub fn feed(&mut self, chunk: &[u8], n_read: usize)
        requires
            n_read <= chunk@.len(),
        ensures
            final(self)@.closed == (old(self)@.closed || n_read == 0),
            n_read == 0 ==> final(self)@.data == old(self)@.data,
            n_read > 0 ==> final(self)@.data == old(self)@.data + chunk@.take(n_read as int),
    {
        if n_read == 0 {
            self.closed = true;
            return ;
        }
        let mut j: usize = 0;
        while j < n_read
            invariant
                j <= n_read <= chunk@.len(),
                self.closed == old(self).closed,
                self.buf@ == old(self).buf@ + chunk@.take(j as int),
            decreases n_read - j,
        {
            self.buf.push(chunk[j]);
            proof {
                assert((old(self).buf@ + chunk@.take(j as int)).push(chunk@[j as int]) =~= old(
                    self,
                ).buf@ + chunk@.take(j as int + 1));
            }
            j = j + 1;
        }
    }

    /// Pulls the next payload out of the buffered bytes, exactly as `drain`
    /// specifies: frames come out in order, a frame of invalid UTF-8 is
    /// skipped, a malformed frame fails with `ParseError`, end-of-stream
    /// with nothing left fails with `ConnectionClosed`.
    pub fn next_payload(&mut self) -> (r: ReadStep)
        ensures
            ({
                let d = drain(old(self)@.data, old(self)@.closed);
                &&& final(self)@.data == d.rest
                &&& final(self)@.closed == old(self)@.closed
                &&& match r {
                    ReadStep::NeedMore => d.step == ReadStepView::NeedMore,
                    ReadStep::Payload(p) => d.step == ReadStepView::Payload(p@),
                    ReadStep::Failed(e) => d.step == ReadStepView::Failed(e),
                }
            }),
    {
        loop
            invariant
                self@.closed == old(self)@.closed,
                drain(self@.data, self@.closed) == drain(old(self)@.data, old(self)@.closed),
            decreases self@.data.len(),
        {
            proof {
                lemma_first_nul_bounds(self@.data);
            }
            match find_nul(&self.buf) {
                Some(i) => {
                    let frame = split_at_nul(&mut self.buf, i);
                    match utf8_to_string(frame) {
                        None => {
                            // invalid UTF-8: this frame is skipped, by the
                            // recursive case of `drain`
                        },
                        Some(text) => match crate::codec::parse_payload(text) {
                            Ok(p) => {
                                return ReadStep::Payload(p);
                            },
                            Err(_) => {
                                return ReadStep::Failed(DspError::ParseError);
                            },
                        },
                    }
                },
                None => {
                    if !self.closed {
                        return ReadStep::NeedMore;
                    }
                    if self.buf.len() == 0 {
                        return ReadStep::Failed(DspError::ConnectionClosed);
                    }
                    // end-of-stream with leftover bytes: one final
                    // unterminated frame
                    let mut frame: Vec<u8> = Vec::new();
                    core::mem::swap(&mut frame, &mut self.buf);
                    match utf8_to_string(frame) {
                        None => {
                            return ReadStep::Failed(DspError::ConnectionClosed);
                        },
                        Some(text) => match crate::codec::parse_payload(text) {
                            Ok(p) => {
                                return ReadStep::Payload(p);
                            },
                            Err(_) => {
                                return ReadStep::Failed(DspError::ParseError);
                            },
                        },
                    }
                },
            }
        }
    }
}

/// Framing law: a buffer holding two complete frames yields exactly the
/// two payloads they decode to, in order, and no terminator byte leaks
/// into either frame's text.
pub proof fn lemma_two_frames(
    f1: Seq<u8>,
    f2: Seq<u8>,
    closed: bool,
    p1: PayloadView,
    p2: PayloadView,
)
    requires
        forall|j: int| 0 <= j < f1.len() ==> #[trigger] f1[j] != 0,
        forall|j: int| 0 <= j < f2.len() ==> #[trigger] f2[j] != 0,
        valid_utf8(f1),
        valid_utf8(f2),
        parse_chars(decode_utf8(f1)) == Some(p1),
        parse_chars(decode_utf8(f2)) == Some(p2),
    ensures
        ({
            let d1 = drain(f1 + seq![0u8] + f2 + seq![0u8], closed);
            let d2 = drain(d1.rest, closed);
            &&& d1.step == ReadStepView::Payload(p1)
            &&& d2.step == ReadStepView::Payload(p2)
            &&& d2.rest == Seq::<u8>::empty()
        }),
{
    let b = f1 + seq![0u8] + f2 + seq![0u8];
    assert(forall|j: int| 0 <= j < f1.len() ==> #[trigger] b[j] == f1[j]);
    assert(b[f1.len() as int] == 0);
    lemma_first_nul_is(b, f1.len() as int);
    assert(b.take(f1.len() as int) =~= f1);
    assert(b.skip(f1.len() as int + 1) =~= f2 + seq![0u8]);
    let b2 = f2 + seq![0u8];
    assert(forall|j: int| 0 <= j < f2.len() ==> #[trigger] b2[j] == f2[j]);
    assert(b2[f2.len() as int] == 0);
    lemma_first_nul_is(b2, f2.len() as int);
    assert(b2.take(f2.len() as int) =~= f2);
    assert(b2.skip(f2.len() as int + 1) =~= Seq::<u8>::empty());
}

/// Wire round trip: two frameable payloads, each encoded and terminated,
/// buffered one after the other, drain back as exactly those two payloads
/// in order. This is the framing law applied to the codec's own output.
pub proof fn lemma_wire_round_trip(p1: PayloadView, p2: PayloadView, closed: bool)
    requires
        frameable(p1),
        frameable(p2),
    ensures
        ({
            let b = encode_utf8(payload_chars(p1)) + seq![0u8] + encode_utf8(payload_chars(p2))
                + seq![0u8];
            let d1 = drain(b, closed);
            let d2 = drain(d1.rest, closed);
            &&& d1.step == ReadStepView::Payload(p1)
            &&& d2.step == ReadStepView::Payload(p2)
            &&& d2.rest == Seq::<u8>::empty()
        }),
{
    let c1 = payload_chars(p1);
    let c2 = payload_chars(p2);
    lemma_payload_chars_nul_free(p1);
    lemma_payload_chars_nul_free(p2);
    lemma_encode_utf8_nul_free(c1);
    lemma_encode_utf8_nul_free(c2);
    encode_utf8_valid_utf8(c1);
    encode_utf8_valid_utf8(c2);
    encode_utf8_decode_utf8(c1);
    encode_utf8_decode_utf8(c2);
    lemma_round_trip(p1);
    lemma_round_trip(p2);
    lemma_two_frames(encode_utf8(c1), encode_utf8(c2), closed, p1, p2);
}

/// Resilience law: a frame of invalid UTF-8 is skipped — draining a
/// buffer that starts with such a frame is the same as draining what
/// follows its terminator.
pub proof fn lemma_invalid_utf8_skipped(f: Seq<u8>, rest: Seq<u8>, closed: bool)
    requires
        forall|j: int| 0 <= j < f.len() ==> #[trigger] f[j] != 0,
        !valid_utf8(f),
    ensures
        drain(f + seq![0u8] + rest, closed) == drain(rest, closed),
{
    let b = f + seq![0u8] + rest;
    assert(forall|j: int| 0 <= j < f.len() ==> #[trigger] b[j] == f[j]);
    assert(b[f.len() as int] == 0);
    lemma_first_nul_is(b, f.len() as int);
    assert(b.take(f.len() as int) =~= f);
    assert(b.skip(f.len() as int + 1) =~= rest);
}

} // verus!
