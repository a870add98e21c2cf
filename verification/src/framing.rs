//! The model of a framed byte stream, and what holds of it.
use crate::delimiter;
use crate::delimiter::{CodecState, Scan};
use crate::shared::MAX_FRAME_LENGTH;
use vstd::prelude::*;

verus! {

/// What is found at the front of a stream.
pub enum Arrival {
    /// No frame, or only a part of one.
    Nothing,
    /// A frame, without the null byte that ends it.
    Frame(Seq<u8>),
    /// A frame that is longer than a frame may be.
    TooLong,
}

/// One end of a stream of null-terminated frames.
#[verifier::ext_equal]
pub struct StreamState {
    /// Bytes that were read and not yet received.
    pub pending: Seq<u8>,
    /// Bytes that were sent and not yet written.
    pub outgoing: Seq<u8>,
    /// Whether the rest of a frame that was too long is still to be skipped.
    pub discarding: bool,
}

/// The byte that ends each frame.
pub open spec fn terminator() -> Seq<u8> {
    seq![0u8]
}

/// The bytes that a frame is sent as.
pub open spec fn framed(frame: Seq<u8>) -> Seq<u8> {
    frame + terminator()
}

/// Whether the bytes can be sent as one frame: no more than a frame may have, and none null.
pub open spec fn is_frame(bytes: Seq<u8>) -> bool {
    bytes.len() <= MAX_FRAME_LENGTH && !bytes.contains(0u8)
}

impl StreamState {
    /// A stream that nothing was read from or sent on.
    pub open spec fn fresh() -> StreamState {
        StreamState { pending: Seq::empty(), outgoing: Seq::empty(), discarding: false }
    }

    /// The codec of the stream, which cuts at null bytes.
    pub open spec fn codec(self) -> CodecState {
        CodecState {
            stops: terminator(),
            terminator: terminator(),
            limit: MAX_FRAME_LENGTH as nat,
            scanned: 0,
            discarding: self.discarding,
        }
    }

    /// What is received next. At the end of the stream, bytes that no null byte ends are a frame
    /// too.
    pub open spec fn arrival(self, eof: bool) -> Arrival {
        match self.codec().found(self.pending) {
            Scan::Chunk(frame) => Arrival::Frame(frame),
            Scan::TooLong => Arrival::TooLong,
            Scan::Incomplete => {
                let left = self.codec().left(self.pending);
                if eof && left.len() > 0 {
                    Arrival::Frame(left)
                } else {
                    Arrival::Nothing
                }
            },
        }
    }

    /// The stream once that was received.
    pub open spec fn received(self, eof: bool) -> StreamState {
        StreamState {
            pending: if eof && self.codec().found(self.pending) is Incomplete {
                Seq::empty()
            } else {
                self.codec().left(self.pending)
            },
            outgoing: self.outgoing,
            discarding: self.codec().decoded(self.pending).discarding,
        }
    }

    /// The stream once a read gave `bytes`.
    pub open spec fn read(self, bytes: Seq<u8>) -> StreamState {
        StreamState { pending: self.pending + bytes, ..self }
    }

    /// The stream once `text` was sent on it.
    pub open spec fn sent(self, text: Seq<char>) -> StreamState {
        StreamState { outgoing: self.outgoing + framed(vstd::utf8::encode_utf8(text)), ..self }
    }

    /// The stream once the texts were sent on it, one after the other.
    pub open spec fn sent_all(self, texts: Seq<Seq<char>>) -> StreamState
        decreases texts.len(),
    {
        if texts.len() == 0 {
            self
        } else {
            self.sent(texts[0]).sent_all(texts.drop_first())
        }
    }

    /// What is received one after the other, `n` times, before the end of the stream.
    pub open spec fn arrivals(self, n: nat) -> Seq<Arrival>
        decreases n,
    {
        if n == 0 {
            Seq::empty()
        } else {
            seq![self.arrival(false)] + self.received(false).arrivals((n - 1) as nat)
        }
    }
}

/// Every frame that is received has at most [`MAX_FRAME_LENGTH`] bytes, and none of them is
/// null.
pub proof fn lemma_frames_are_bounded(stream: StreamState, eof: bool)
    ensures
        stream.arrival(eof) matches Arrival::Frame(frame) ==> is_frame(frame),
{
    if let Arrival::Frame(frame) = stream.arrival(eof) {
        let rest = stream.codec().unskipped(stream.pending);
        delimiter::lemma_stop_at(rest, terminator());
        assert forall|i: int| 0 <= i < frame.len() implies frame[i] != 0 by {
            assert(frame[i] == rest[i]);
            assert(terminator()[0] == 0);
        }
    }
}

/// Receiving loses nothing: what was pending is the frame, the null byte that ends it, and what
/// is still pending. The last frame of a stream may lack the null byte.
pub proof fn lemma_receiving_keeps_the_rest(stream: StreamState, eof: bool)
    requires
        !stream.discarding,
    ensures
        stream.arrival(eof) matches Arrival::Frame(frame) ==> {
            ||| stream.pending == framed(frame) + stream.received(eof).pending
            ||| eof && stream.pending == frame && stream.received(eof).pending.len() == 0
        },
        !(stream.arrival(eof) is Frame) ==> stream.received(eof).pending == stream.pending,
        stream.received(eof).outgoing == stream.outgoing,
{
    delimiter::lemma_stop_at(stream.pending, terminator());
    if let Arrival::Frame(frame) = stream.arrival(eof) {
        if let Scan::Chunk(_) = stream.codec().found(stream.pending) {
            assert(terminator().contains(stream.pending[frame.len() as int]));
            assert(stream.pending =~= framed(frame) + stream.received(eof).pending);
        }
    } else if stream.codec().found(stream.pending) is Incomplete {
        assert(stream.received(eof).pending =~= stream.pending);
    }
}

/// A frame is refused exactly when more than [`MAX_FRAME_LENGTH`] bytes are there and the first
/// `MAX_FRAME_LENGTH + 1` of them hold no null byte.
pub proof fn lemma_too_long(stream: StreamState, eof: bool)
    requires
        !stream.discarding,
    ensures
        stream.arrival(eof) is TooLong <==> {
            &&& stream.pending.len() > MAX_FRAME_LENGTH
            &&& !stream.pending.take(MAX_FRAME_LENGTH + 1).contains(0u8)
        },
        stream.arrival(eof) is TooLong ==> stream.received(eof) == (StreamState {
            discarding: true,
            ..stream
        }),
{
    delimiter::lemma_stop_at(stream.pending, terminator());
    let end = delimiter::stop_at(stream.pending, terminator());
    assert(terminator()[0] == 0);
    if stream.pending.len() > MAX_FRAME_LENGTH {
        let front = stream.pending.take(MAX_FRAME_LENGTH + 1);
        if end <= MAX_FRAME_LENGTH {
            assert(front[end as int] == 0);
        } else {
            assert forall|i: int| 0 <= i < front.len() implies front[i] != 0 by {
                assert(!terminator().contains(stream.pending[i]));
            }
        }
    }
}

proof fn lemma_stop_at_frame(frame: Seq<u8>, rest: Seq<u8>)
    requires
        !frame.contains(0u8),
    ensures
        delimiter::stop_at(framed(frame) + rest, terminator()) == frame.len(),
        delimiter::stop_at(frame, terminator()) == frame.len(),
{
    delimiter::lemma_stop_at(frame, terminator());
    let end = delimiter::stop_at(frame, terminator());
    if end < frame.len() {
        assert(frame.contains(frame[end as int]));
    }
    delimiter::lemma_stop_at_concat(frame, terminator() + rest, terminator());
    assert(framed(frame) + rest =~= frame + (terminator() + rest));
    assert(terminator().contains(terminator()[0]));
}

/// A stream that has a whole frame in front receives it, and has the rest after it.
pub proof fn lemma_receives_frame(stream: StreamState, eof: bool, frame: Seq<u8>, rest: Seq<u8>)
    requires
        is_frame(frame),
        stream.pending == framed(frame) + rest,
        !stream.discarding,
    ensures
        stream.arrival(eof) == Arrival::Frame(frame),
        stream.received(eof) == (StreamState { pending: rest, ..stream }),
{
    lemma_stop_at_frame(frame, rest);
    assert(stream.pending.take(frame.len() as int) =~= frame);
    assert(stream.pending.skip(frame.len() as int + 1) =~= rest);
}

/// After a frame that was too long, everything up to the next null byte is skipped, and the
/// frame behind it is received.
pub proof fn lemma_recovers_from_too_long(
    stream: StreamState,
    eof: bool,
    skipped: Seq<u8>,
    frame: Seq<u8>,
    rest: Seq<u8>,
)
    requires
        is_frame(frame),
        !skipped.contains(0u8),
        stream.pending == framed(skipped) + framed(frame) + rest,
        stream.discarding,
    ensures
        stream.arrival(eof) == Arrival::Frame(frame),
        stream.received(eof) == (StreamState { pending: rest, discarding: false, ..stream }),
{
    let behind = framed(frame) + rest;
    assert(stream.pending =~= framed(skipped) + behind);
    lemma_stop_at_frame(skipped, behind);
    assert(stream.codec().unskipped(stream.pending) =~= behind);
    lemma_stop_at_frame(frame, rest);
    assert(behind.take(frame.len() as int) =~= frame);
    assert(behind.skip(frame.len() as int + 1) =~= rest);
}

/// How the bytes are split over reads makes no difference: where nothing is found, the same is
/// received after the next read as if nobody had looked before it.
pub proof fn lemma_reads_may_be_split(stream: StreamState, more: Seq<u8>, eof: bool)
    requires
        stream.arrival(false) is Nothing,
    ensures
        stream.received(false).read(more).arrival(eof) == stream.read(more).arrival(eof),
        stream.received(false).read(more).received(eof) == stream.read(more).received(eof),
{
    let pending = stream.pending;
    let split = stream.received(false).read(more);
    delimiter::lemma_stop_at(pending, terminator());
    delimiter::lemma_stop_at_concat(pending, more, terminator());
    delimiter::lemma_stop_at(more, terminator());
    if stream.discarding {
        if stream.codec().skips_all(pending) {
            assert(split.pending =~= more);
            let end = delimiter::stop_at(more, terminator()) as int;
            if end < more.len() {
                assert((pending + more).skip(pending.len() + end + 1) =~= more.skip(end + 1));
            }
        } else {
            let end = delimiter::stop_at(pending, terminator()) as int;
            assert((pending + more).skip(end + 1) =~= pending.skip(end + 1) + more);
        }
        assert(split.codec().unskipped(split.pending) == stream.codec().unskipped(
            pending + more,
        ));
    }
    assert(split.received(eof) =~= stream.read(more).received(eof));
}

proof fn lemma_scalar_has_no_null(scalar: u32)
    requires
        scalar != 0,
    ensures
        !vstd::utf8::encode_scalar(scalar).contains(0u8),
{
    let bytes = vstd::utf8::encode_scalar(scalar);
    assert(scalar <= 0x7F && scalar != 0 ==> (scalar & 0x7F) as u8 != 0) by (bit_vector);
    assert(forall|b: u8| #[trigger] (0xC0 | b) != 0) by (bit_vector);
    assert(forall|b: u8| #[trigger] (0xE0 | b) != 0) by (bit_vector);
    assert(forall|b: u8| #[trigger] (0xF0 | b) != 0) by (bit_vector);
    assert(forall|b: u8| #[trigger] (0x80 | b) != 0) by (bit_vector);
    assert forall|i: int| 0 <= i < bytes.len() implies bytes[i] != 0 by {}
}

/// A text without null characters has no null byte in UTF-8.
pub proof fn lemma_text_has_no_null(text: Seq<char>)
    requires
        !text.contains('\0'),
    ensures
        !vstd::utf8::encode_utf8(text).contains(0u8),
    decreases text.len(),
{
    if text.len() > 0 {
        let rest = text.drop_first();
        let first = vstd::utf8::encode_scalar(text[0] as u32);
        let bytes = vstd::utf8::encode_utf8(text);
        assert(text.contains(text[0]));
        assert(text[0] as u32 != 0) by {
            vstd::utf8::char_u32_cast(text[0], text[0] as u32);
        }
        lemma_scalar_has_no_null(text[0] as u32);
        assert forall|c: char| rest.contains(c) implies text.contains(c) by {
            let i = choose|i: int| 0 <= i < rest.len() && rest[i] == c;
            assert(text[i + 1] == c);
        }
        lemma_text_has_no_null(rest);
        assert forall|i: int| 0 <= i < bytes.len() implies bytes[i] != 0 by {
            if i < first.len() {
                assert(bytes[i] == first[i]);
            } else {
                assert(bytes[i] == vstd::utf8::encode_utf8(rest)[i - first.len()]);
            }
        }
    }
}

/// What one end sends the other receives: a text without null characters that has at most
/// [`MAX_FRAME_LENGTH`] bytes in UTF-8 arrives as it was sent, whatever is sent after it, and
/// only what is sent after it is still to be received.
pub proof fn lemma_send_then_receive(
    sender: StreamState,
    text: Seq<char>,
    after: Seq<u8>,
    receiver: StreamState,
    eof: bool,
)
    requires
        !text.contains('\0'),
        vstd::utf8::encode_utf8(text).len() <= MAX_FRAME_LENGTH,
        sender.outgoing.len() == 0,
        receiver.pending.len() == 0,
        !receiver.discarding,
    ensures
        receiver.read(sender.sent(text).outgoing + after).arrival(eof) == Arrival::Frame(
            vstd::utf8::encode_utf8(text),
        ),
        receiver.read(sender.sent(text).outgoing + after).received(eof) == receiver.read(after),
{
    let bytes = vstd::utf8::encode_utf8(text);
    let wire = sender.sent(text).outgoing + after;
    lemma_text_has_no_null(text);
    assert(sender.sent(text).outgoing =~= framed(bytes));
    assert(receiver.read(wire).pending =~= framed(bytes) + after);
    lemma_receives_frame(receiver.read(wire), eof, bytes, after);
    assert(receiver.read(after).pending =~= after);
}

/// The bytes that several frames are sent as, one after the other.
pub open spec fn all_framed(frames: Seq<Seq<u8>>) -> Seq<u8>
    decreases frames.len(),
{
    if frames.len() == 0 {
        Seq::empty()
    } else {
        framed(frames[0]) + all_framed(frames.drop_first())
    }
}

/// Frames are received in the order in which they were sent, each once, and then no more.
pub proof fn lemma_frames_arrive_in_order(stream: StreamState, frames: Seq<Seq<u8>>)
    requires
        forall|i: int| 0 <= i < frames.len() ==> is_frame(#[trigger] frames[i]),
        stream.pending == all_framed(frames),
        !stream.discarding,
    ensures
        stream.arrivals(frames.len() + 1) == frames.map_values(
            |frame: Seq<u8>| Arrival::Frame(frame),
        ).push(Arrival::Nothing),
    decreases frames.len(),
{
    let told = frames.map_values(|frame: Seq<u8>| Arrival::Frame(frame)).push(Arrival::Nothing);
    if frames.len() == 0 {
        assert(stream.received(false).arrivals(0) =~= Seq::empty());
        assert(delimiter::stop_at(stream.pending, terminator()) == 0);
        assert(stream.arrivals(1) =~= told);
    } else {
        let rest = frames.drop_first();
        lemma_receives_frame(stream, false, frames[0], all_framed(rest));
        lemma_frames_arrive_in_order(stream.received(false), rest);
        assert(stream.arrivals(frames.len() + 1) =~= told);
    }
}

/// The texts in UTF-8.
pub open spec fn all_encoded(texts: Seq<Seq<char>>) -> Seq<Seq<u8>> {
    texts.map_values(|text: Seq<char>| vstd::utf8::encode_utf8(text))
}

/// What is sent follows what was sent before, with nothing between.
pub proof fn lemma_sent_all(sender: StreamState, texts: Seq<Seq<char>>)
    ensures
        sender.sent_all(texts).outgoing == sender.outgoing + all_framed(all_encoded(texts)),
    decreases texts.len(),
{
    if texts.len() == 0 {
        assert(sender.outgoing + all_framed(all_encoded(texts)) =~= sender.outgoing);
    } else {
        let rest = texts.drop_first();
        lemma_sent_all(sender.sent(texts[0]), rest);
        assert(all_encoded(texts).drop_first() =~= all_encoded(rest));
        assert(sender.sent_all(texts).outgoing =~= sender.outgoing + all_framed(
            all_encoded(texts),
        ));
    }
}

/// Texts that are sent one after the other are received in that order, each once, and then no
/// more; none may hold a null character or have more than [`MAX_FRAME_LENGTH`] bytes.
pub proof fn lemma_texts_arrive_in_order(
    sender: StreamState,
    texts: Seq<Seq<char>>,
    receiver: StreamState,
)
    requires
        forall|i: int| 0 <= i < texts.len() ==> !(#[trigger] texts[i]).contains('\0'),
        forall|i: int|
            0 <= i < texts.len() ==> vstd::utf8::encode_utf8(#[trigger] texts[i]).len()
                <= MAX_FRAME_LENGTH,
        sender.outgoing.len() == 0,
        receiver.pending.len() == 0,
        !receiver.discarding,
    ensures
        receiver.read(sender.sent_all(texts).outgoing).arrivals(texts.len() + 1) == all_encoded(
            texts,
        ).map_values(|frame: Seq<u8>| Arrival::Frame(frame)).push(Arrival::Nothing),
{
    let frames = all_encoded(texts);
    let stream = receiver.read(sender.sent_all(texts).outgoing);
    lemma_sent_all(sender, texts);
    assert(stream.pending =~= all_framed(frames));
    assert forall|i: int| 0 <= i < frames.len() implies is_frame(#[trigger] frames[i]) by {
        lemma_text_has_no_null(texts[i]);
    }
    lemma_frames_arrive_in_order(stream, frames);
}

/// The null byte at its end is the only one in what a text without null characters is sent as.
pub proof fn lemma_only_terminator_is_null(text: Seq<char>, i: int)
    requires
        !text.contains('\0'),
        0 <= i < framed(vstd::utf8::encode_utf8(text)).len(),
    ensures
        framed(vstd::utf8::encode_utf8(text))[i] == 0 <==> i == vstd::utf8::encode_utf8(text).len(),
{
    let bytes = vstd::utf8::encode_utf8(text);
    lemma_text_has_no_null(text);
    if i < bytes.len() {
        assert(framed(bytes)[i] == bytes[i]);
        assert(bytes.contains(bytes[i]));
    }
}

/// Messages are received as they were sent and in that order, where they are written without null
/// characters and in at most [`MAX_FRAME_LENGTH`] bytes, and are read back from what is written.
pub proof fn lemma_messages_arrive_in_order<M>(
    write: spec_fn(M) -> Seq<char>,
    read: spec_fn(Seq<u8>) -> M,
    sender: StreamState,
    messages: Seq<M>,
    receiver: StreamState,
)
    requires
        forall|i: int|
            0 <= i < messages.len() ==> !write(#[trigger] messages[i]).contains('\0') && read(
                vstd::utf8::encode_utf8(write(messages[i])),
            ) == messages[i],
        forall|i: int|
            0 <= i < messages.len() ==> vstd::utf8::encode_utf8(
                write(#[trigger] messages[i]),
            ).len() <= MAX_FRAME_LENGTH,
        sender.outgoing.len() == 0,
        receiver.pending.len() == 0,
        !receiver.discarding,
    ensures
        ({
            let texts = messages.map_values(write);
            let arrivals = receiver.read(sender.sent_all(texts).outgoing).arrivals(
                messages.len(),
            );
            &&& arrivals.len() == messages.len()
            &&& forall|i: int|
                0 <= i < messages.len() ==> (#[trigger] arrivals[i] matches Arrival::Frame(frame)
                    && read(frame) == messages[i])
        }),
{
    let texts = messages.map_values(write);
    let stream = receiver.read(sender.sent_all(texts).outgoing);
    assert forall|i: int| 0 <= i < texts.len() implies !(#[trigger] texts[i]).contains('\0')
        && vstd::utf8::encode_utf8(texts[i]).len() <= MAX_FRAME_LENGTH by {
        assert(texts[i] == write(messages[i]));
    }
    lemma_texts_arrive_in_order(sender, texts, receiver);
    lemma_fewer_arrivals(stream, messages.len());
    assert forall|i: int| 0 <= i < messages.len() implies (#[trigger] stream.arrivals(
        messages.len(),
    )[i] matches Arrival::Frame(frame) && read(frame) == messages[i]) by {
        assert(stream.arrivals(messages.len() + 1)[i] == Arrival::Frame(
            vstd::utf8::encode_utf8(texts[i]),
        ));
    }
}

proof fn lemma_fewer_arrivals(stream: StreamState, n: nat)
    ensures
        stream.arrivals(n).len() == n,
        stream.arrivals(n + 1).len() == n + 1,
        stream.arrivals(n) == stream.arrivals(n + 1).take(n as int),
    decreases n,
{
    if n == 0 {
        assert(stream.received(false).arrivals(0).len() == 0);
        assert(stream.arrivals(0) =~= stream.arrivals(1).take(0));
    } else {
        lemma_fewer_arrivals(stream.received(false), (n - 1) as nat);
        assert(stream.arrivals(n) =~= stream.arrivals(n + 1).take(n as int));
    }
}

/// A stream that is asked for `n` frames, one after the other.
pub open spec fn received_all(stream: StreamState, n: nat) -> StreamState
    decreases n,
{
    if n == 0 {
        stream
    } else {
        received_all(stream.received(false), (n - 1) as nat)
    }
}

/// After any number of frames, what was pending is those frames, each with its null byte, and
/// what is still pending.
pub proof fn lemma_frames_and_rest(stream: StreamState, frames: Seq<Seq<u8>>)
    requires
        !stream.discarding,
        stream.arrivals(frames.len()) == frames.map_values(
            |frame: Seq<u8>| Arrival::Frame(frame),
        ),
    ensures
        stream.pending == all_framed(frames) + received_all(stream, frames.len()).pending,
    decreases frames.len(),
{
    let told = frames.map_values(|frame: Seq<u8>| Arrival::Frame(frame));
    if frames.len() == 0 {
        assert(stream.pending =~= all_framed(frames) + stream.pending);
    } else {
        let rest = frames.drop_first();
        let n = rest.len();
        assert(stream.arrivals(frames.len())[0] == told[0]);
        assert(stream.arrival(false) == Arrival::Frame(frames[0]));
        lemma_receiving_keeps_the_rest(stream, false);
        assert(stream.received(false).arrivals(n) =~= rest.map_values(
            |frame: Seq<u8>| Arrival::Frame(frame),
        )) by {
            lemma_fewer_arrivals(stream.received(false), n);
            assert forall|i: int| 0 <= i < n implies stream.received(false).arrivals(n)[i]
                == Arrival::Frame(rest[i]) by {
                assert(stream.arrivals(frames.len())[i + 1] == told[i + 1]);
            }
        }
        lemma_frames_and_rest(stream.received(false), rest);
        assert(stream.pending =~= all_framed(frames) + received_all(
            stream,
            frames.len(),
        ).pending);
    }
}

proof fn lemma_receiving_comes_closer(stream: StreamState)
    requires
        !(stream.arrival(false) is Nothing),
    ensures
        stream.received(false).pending.len() < stream.pending.len() || (
        stream.received(false).pending.len() == stream.pending.len() && !stream.discarding
            && stream.received(false).discarding),
{
    delimiter::lemma_stop_at(stream.pending, terminator());
    delimiter::lemma_stop_at(stream.codec().unskipped(stream.pending), terminator());
}

/// All that can be received from a stream as it stands.
pub open spec fn all_arrivals(stream: StreamState) -> Seq<Arrival>
    decreases
            stream.pending.len(),
            if stream.discarding {
                0nat
            } else {
                1nat
            },
    via all_arrivals_decreases
{
    if stream.arrival(false) is Nothing {
        Seq::empty()
    } else {
        seq![stream.arrival(false)] + all_arrivals(stream.received(false))
    }
}

#[via_fn]
proof fn all_arrivals_decreases(stream: StreamState) {
    if !(stream.arrival(false) is Nothing) {
        lemma_receiving_comes_closer(stream);
    }
}

/// The stream once all of that was received.
pub open spec fn exhausted(stream: StreamState) -> StreamState
    decreases
            stream.pending.len(),
            if stream.discarding {
                0nat
            } else {
                1nat
            },
    via exhausted_decreases
{
    if stream.arrival(false) is Nothing {
        stream.received(false)
    } else {
        exhausted(stream.received(false))
    }
}

#[via_fn]
proof fn exhausted_decreases(stream: StreamState) {
    if !(stream.arrival(false) is Nothing) {
        lemma_receiving_comes_closer(stream);
    }
}

/// What is received from a stream stays the same when more comes in behind.
pub proof fn lemma_arrival_is_settled(stream: StreamState, more: Seq<u8>)
    requires
        !(stream.arrival(false) is Nothing),
    ensures
        stream.read(more).arrival(false) == stream.arrival(false),
        stream.read(more).received(false) == stream.received(false).read(more),
{
    let pending = stream.pending;
    let rest = stream.codec().unskipped(pending);
    delimiter::lemma_stop_at(pending, terminator());
    delimiter::lemma_stop_at_concat(pending, more, terminator());
    if stream.discarding {
        let end = delimiter::stop_at(pending, terminator()) as int;
        assert((pending + more).skip(end + 1) =~= pending.skip(end + 1) + more);
    }
    assert(stream.codec().unskipped(pending + more) == rest + more);
    delimiter::lemma_stop_at(rest, terminator());
    delimiter::lemma_stop_at_concat(rest, more, terminator());
    delimiter::lemma_stop_at(rest + more, terminator());
    if let Arrival::Frame(frame) = stream.arrival(false) {
        assert((rest + more).take(frame.len() as int) =~= rest.take(frame.len() as int));
        assert((rest + more).skip(frame.len() as int + 1) =~= rest.skip(frame.len() as int + 1)
            + more);
    }
    assert(stream.read(more).received(false) =~= stream.received(false).read(more));
}

proof fn lemma_exhausted(stream: StreamState)
    ensures
        exhausted(stream).arrival(false) is Nothing,
    decreases
            stream.pending.len(),
            if stream.discarding {
                0nat
            } else {
                1nat
            },
{
    if stream.arrival(false) is Nothing {
        lemma_reads_may_be_split(stream, Seq::empty(), false);
        assert(stream.read(Seq::empty()) =~= stream);
        assert(stream.received(false).read(Seq::empty()) =~= stream.received(false));
    } else {
        lemma_receiving_comes_closer(stream);
        lemma_exhausted(stream.received(false));
    }
}

proof fn lemma_read_in_two(stream: StreamState, more: Seq<u8>)
    ensures
        all_arrivals(stream.read(more)) == all_arrivals(stream) + all_arrivals(
            exhausted(stream).read(more),
        ),
    decreases
            stream.pending.len(),
            if stream.discarding {
                0nat
            } else {
                1nat
            },
{
    if stream.arrival(false) is Nothing {
        lemma_reads_may_be_split(stream, more, false);
        assert(all_arrivals(stream) + all_arrivals(exhausted(stream).read(more))
            =~= all_arrivals(stream.read(more)));
    } else {
        lemma_receiving_comes_closer(stream);
        lemma_arrival_is_settled(stream, more);
        lemma_read_in_two(stream.received(false), more);
        assert(all_arrivals(stream.read(more)) =~= all_arrivals(stream) + all_arrivals(
            exhausted(stream).read(more),
        ));
    }
}

/// The bytes of several reads, one after the other.
pub open spec fn joined(pieces: Seq<Seq<u8>>) -> Seq<u8>
    decreases pieces.len(),
{
    if pieces.len() == 0 {
        Seq::empty()
    } else {
        pieces[0] + joined(pieces.drop_first())
    }
}

/// What is received in the course of several reads, when after each read all is received that
/// can be.
pub open spec fn arrivals_in(stream: StreamState, pieces: Seq<Seq<u8>>) -> Seq<Arrival>
    decreases pieces.len(),
{
    if pieces.len() == 0 {
        Seq::empty()
    } else {
        let next = stream.read(pieces[0]);
        all_arrivals(next) + arrivals_in(exhausted(next), pieces.drop_first())
    }
}

/// What is received does not depend on how the bytes are cut into reads: the same comes out of
/// any number of reads as out of one that gives all the bytes.
pub proof fn lemma_any_cut_into_reads(stream: StreamState, pieces: Seq<Seq<u8>>)
    requires
        stream.arrival(false) is Nothing,
    ensures
        arrivals_in(stream, pieces) == all_arrivals(stream.read(joined(pieces))),
    decreases pieces.len(),
{
    if pieces.len() == 0 {
        assert(stream.read(joined(pieces)) =~= stream);
    } else {
        let next = stream.read(pieces[0]);
        let rest = joined(pieces.drop_first());
        lemma_exhausted(next);
        lemma_any_cut_into_reads(exhausted(next), pieces.drop_first());
        lemma_read_in_two(next, rest);
        assert(stream.read(joined(pieces)) =~= next.read(rest));
    }
}

/// A new stream has nothing in it and nothing to skip. What is read comes behind what is pending,
/// and what is sent behind what is outgoing, in UTF-8 and with one null byte; neither touches the
/// other direction.
pub proof fn lemma_reading_and_sending(stream: StreamState, bytes: Seq<u8>, text: Seq<char>)
    ensures
        StreamState::fresh() == (StreamState {
            pending: Seq::empty(),
            outgoing: Seq::empty(),
            discarding: false,
        }),
        stream.read(bytes) == (StreamState {
            pending: stream.pending + bytes,
            outgoing: stream.outgoing,
            discarding: stream.discarding,
        }),
        stream.sent(text) == (StreamState {
            pending: stream.pending,
            outgoing: stream.outgoing + vstd::utf8::encode_utf8(text) + seq![0u8],
            discarding: stream.discarding,
        }),
{
    assert(stream.outgoing + framed(vstd::utf8::encode_utf8(text)) =~= stream.outgoing
        + vstd::utf8::encode_utf8(text) + seq![0u8]);
}

/// Up to 256 bytes that are not null, with a null byte behind them, are received as one frame,
/// whatever these bytes are and whatever follows; what follows is then pending.
pub proof fn lemma_frame_in_front(
    stream: StreamState,
    eof: bool,
    frame: Seq<u8>,
    rest: Seq<u8>,
)
    requires
        !stream.discarding,
        stream.pending == frame + seq![0u8] + rest,
        frame.len() <= 256,
        forall|i: int| 0 <= i < frame.len() ==> #[trigger] frame[i] != 0,
    ensures
        stream.arrival(eof) == Arrival::Frame(frame),
        stream.received(eof) == (StreamState {
            pending: rest,
            outgoing: stream.outgoing,
            discarding: false,
        }),
{
    lemma_receives_frame(stream, eof, frame, rest);
}

/// Where no null byte is pending and no more than 256 bytes are, nothing is received and all of
/// it stays pending. At the end of the stream it is received as the last frame, if it is anything.
pub proof fn lemma_part_of_a_frame(stream: StreamState)
    requires
        !stream.discarding,
        stream.pending.len() <= 256,
        forall|i: int| 0 <= i < stream.pending.len() ==> #[trigger] stream.pending[i] != 0,
    ensures
        stream.arrival(false) is Nothing,
        stream.received(false) == stream,
        stream.pending.len() == 0 ==> stream.arrival(true) is Nothing,
        stream.pending.len() > 0 ==> stream.arrival(true) == Arrival::Frame(stream.pending),
        stream.received(true) == (StreamState {
            pending: Seq::empty(),
            outgoing: stream.outgoing,
            discarding: false,
        }),
{
    assert(!stream.pending.contains(0u8));
    lemma_stop_at_frame(stream.pending, Seq::empty());
    assert(stream.received(false) =~= stream);
}

/// More than 256 bytes of which the first 257 are not null are refused, whatever they are. All of
/// them stay pending, to be skipped.
pub proof fn lemma_frame_is_refused(stream: StreamState, eof: bool)
    requires
        !stream.discarding,
        stream.pending.len() > 256,
        forall|i: int| 0 <= i <= 256 ==> #[trigger] stream.pending[i] != 0,
    ensures
        stream.arrival(eof) is TooLong,
        stream.received(eof) == (StreamState {
            pending: stream.pending,
            outgoing: stream.outgoing,
            discarding: true,
        }),
{
    assert(!stream.pending.take(257).contains(0u8));
    lemma_too_long(stream, eof);
}

/// What is to be skipped is skipped up to the next null byte, and the stream then goes on as if it
/// had begun behind that byte. Where there is none, all that is pending is skipped, nothing is
/// received, and what comes in next is to be skipped too.
pub proof fn lemma_refused_frame_is_skipped(
    stream: StreamState,
    eof: bool,
    skipped: Seq<u8>,
    rest: Seq<u8>,
)
    requires
        stream.discarding,
        forall|i: int| 0 <= i < skipped.len() ==> #[trigger] skipped[i] != 0,
    ensures
        stream.pending == skipped + seq![0u8] + rest ==> {
            let behind = StreamState {
                pending: rest,
                outgoing: stream.outgoing,
                discarding: false,
            };
            stream.arrival(eof) == behind.arrival(eof) && stream.received(eof) == behind.received(
                eof,
            )
        },
        stream.pending == skipped ==> stream.arrival(eof) is Nothing && stream.received(eof) == (
        StreamState { pending: Seq::empty(), outgoing: stream.outgoing, discarding: true }),
{
    assert(!skipped.contains(0u8));
    lemma_stop_at_frame(skipped, rest);
    if stream.pending == skipped + seq![0u8] + rest {
        let behind = StreamState { pending: rest, outgoing: stream.outgoing, discarding: false };
        assert(stream.codec().unskipped(stream.pending) =~= rest);
        assert(stream.received(eof) =~= behind.received(eof));
    }
}

} // verus!
