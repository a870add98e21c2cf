//! The delimiter codec of `tokio_util` and the buffers of `bytes`, as the rest of the library
//! sees them.
//!
//! Everything that is believed of those two crates stands in this file.
use tokio_util::bytes::BytesMut;
use tokio_util::codec::{AnyDelimiterCodec, AnyDelimiterCodecError, Decoder, Encoder};
use vstd::prelude::*;

verus! {

/// `bytes::BytesMut`, a growable byte buffer.
#[verifier::external_type_specification]
#[verifier::external_body]
pub struct ExBytesMut(BytesMut);

/// `tokio_util::codec::AnyDelimiterCodec`, which cuts a byte stream at delimiter bytes.
#[verifier::external_type_specification]
#[verifier::external_body]
pub struct ExAnyDelimiterCodec(AnyDelimiterCodec);

/// `tokio_util::codec::AnyDelimiterCodecError`, what decoding or encoding fails with.
#[verifier::external_type_specification]
#[verifier::external_body]
pub struct ExAnyDelimiterCodecError(AnyDelimiterCodecError);

/// The bytes that a buffer holds, in order.
pub uninterp spec fn held(buf: BytesMut) -> Seq<u8>;

/// What an `AnyDelimiterCodec` was made with, and what it remembers between two calls.
pub struct CodecState {
    /// The bytes at which the stream is cut.
    pub stops: Seq<u8>,
    /// What is written after each chunk.
    pub terminator: Seq<u8>,
    /// The most bytes that a chunk may have.
    pub limit: nat,
    /// How many bytes of the buffer are known to hold no stop byte.
    pub scanned: nat,
    /// Whether the rest of a chunk that was too long is still to be skipped.
    pub discarding: bool,
}

/// The state of a codec: a function of its fields alone.
pub uninterp spec fn codec_state(codec: AnyDelimiterCodec) -> CodecState;

/// The position of the first stop byte, or the number of bytes where there is none.
pub open spec fn stop_at(bytes: Seq<u8>, stops: Seq<u8>) -> nat
    decreases bytes.len(),
{
    if bytes.len() == 0 || stops.contains(bytes[0]) {
        0
    } else {
        1 + stop_at(bytes.drop_first(), stops)
    }
}

/// What a codec finds at the front of its buffer.
pub enum Scan {
    /// A whole chunk, without the stop byte that ends it.
    Chunk(Seq<u8>),
    /// More bytes than a chunk may have, and no stop byte among them.
    TooLong,
    /// Too few bytes to tell.
    Incomplete,
}

/// What stands at the front of `bytes` for a codec that is not skipping.
pub open spec fn scan(bytes: Seq<u8>, stops: Seq<u8>, limit: nat) -> Scan {
    let end = stop_at(bytes, stops);
    if end < bytes.len() && end <= limit {
        Scan::Chunk(bytes.take(end as int))
    } else if bytes.len() > limit {
        Scan::TooLong
    } else {
        Scan::Incomplete
    }
}

impl CodecState {
    /// Whether the codec still has to skip once it has seen `bytes`.
    pub open spec fn skips_all(self, bytes: Seq<u8>) -> bool {
        self.discarding && stop_at(bytes, self.stops) == bytes.len()
    }

    /// What is left of `bytes` after skipping: everything behind the first stop byte, or all of
    /// it where nothing is to be skipped.
    pub open spec fn unskipped(self, bytes: Seq<u8>) -> Seq<u8> {
        if self.skips_all(bytes) {
            Seq::empty()
        } else if self.discarding {
            bytes.skip(stop_at(bytes, self.stops) as int + 1)
        } else {
            bytes
        }
    }

    /// Whether `bytes` may be what the codec is called on: what it left in the buffer the last
    /// time, with any bytes behind.
    pub open spec fn resumes(self, bytes: Seq<u8>) -> bool {
        &&& self.scanned <= self.limit + 1
        &&& self.scanned <= stop_at(bytes, self.stops)
    }

    /// What decoding finds in `bytes`.
    pub open spec fn found(self, bytes: Seq<u8>) -> Scan {
        if self.skips_all(bytes) {
            Scan::Incomplete
        } else {
            scan(self.unskipped(bytes), self.stops, self.limit)
        }
    }

    /// What decoding leaves of `bytes`.
    pub open spec fn left(self, bytes: Seq<u8>) -> Seq<u8> {
        match self.found(bytes) {
            Scan::Chunk(chunk) => self.unskipped(bytes).skip(chunk.len() as int + 1),
            _ => self.unskipped(bytes),
        }
    }

    /// The codec after decoding from `bytes`.
    pub open spec fn decoded(self, bytes: Seq<u8>) -> CodecState {
        match self.found(bytes) {
            Scan::Chunk(_) => CodecState { scanned: 0, discarding: false, ..self },
            Scan::TooLong => CodecState {
                scanned: if self.discarding { 0 } else { self.scanned },
                discarding: true,
                ..self
            },
            Scan::Incomplete => CodecState {
                scanned: self.unskipped(bytes).len(),
                discarding: self.skips_all(bytes),
                ..self
            },
        }
    }
}

/// What `stop_at` is: nothing before it is a stop byte, and the byte there, if any, is one.
pub proof fn lemma_stop_at(bytes: Seq<u8>, stops: Seq<u8>)
    ensures
        stop_at(bytes, stops) <= bytes.len(),
        forall|i: int| 0 <= i < stop_at(bytes, stops) ==> !stops.contains(#[trigger] bytes[i]),
        stop_at(bytes, stops) < bytes.len() ==> stops.contains(
            bytes[stop_at(bytes, stops) as int],
        ),
    decreases bytes.len(),
{
    if bytes.len() != 0 && !stops.contains(bytes[0]) {
        let rest = bytes.drop_first();
        lemma_stop_at(rest, stops);
        assert forall|i: int| 0 <= i < stop_at(bytes, stops) implies !stops.contains(
            #[trigger] bytes[i],
        ) by {
            if i > 0 {
                assert(bytes[i] == rest[i - 1]);
            }
        }
    }
}

/// Where there is no stop byte in `front`, the first one of `front + back` is that of `back`;
/// else it is that of `front`.
pub proof fn lemma_stop_at_concat(front: Seq<u8>, back: Seq<u8>, stops: Seq<u8>)
    ensures
        stop_at(front + back, stops) == if stop_at(front, stops) < front.len() {
            stop_at(front, stops)
        } else {
            front.len() + stop_at(back, stops)
        },
    decreases front.len(),
{
    if front.len() == 0 {
        assert(front + back =~= back);
    } else {
        assert((front + back)[0] == front[0]);
        if !stops.contains(front[0]) {
            assert((front + back).drop_first() =~= front.drop_first() + back);
            lemma_stop_at(front.drop_first(), stops);
            lemma_stop_at_concat(front.drop_first(), back, stops);
        }
    }
}

/// A codec can go on from what it left in the buffer, whatever comes in behind.
pub proof fn lemma_resumes(codec: CodecState, bytes: Seq<u8>, more: Seq<u8>)
    requires
        codec.resumes(bytes),
    ensures
        codec.resumes(bytes + more),
        codec.decoded(bytes).resumes(codec.left(bytes)),
        (CodecState { scanned: 0, ..codec.decoded(bytes) }).resumes(Seq::empty()),
{
    lemma_stop_at(bytes, codec.stops);
    lemma_stop_at_concat(bytes, more, codec.stops);
    lemma_stop_at(codec.unskipped(bytes), codec.stops);
    lemma_stop_at(codec.left(bytes), codec.stops);
}

/// `BytesMut::new`: an empty buffer.
pub assume_specification[ BytesMut::new ]() -> (buf: BytesMut)
    ensures
        held(buf) == Seq::<u8>::empty(),
;

/// `BytesMut::len`: the number of bytes that the buffer holds.
pub assume_specification[ BytesMut::len ](buf: &BytesMut) -> (len: usize)
    ensures
        len == held(*buf).len(),
;

/// `BytesMut::extend_from_slice`: appends the bytes. More than `isize::MAX` bytes cannot be
/// allocated.
pub assume_specification[ BytesMut::extend_from_slice ](buf: &mut BytesMut, extend: &[u8])
    requires
        held(*old(buf)).len() + extend@.len() <= isize::MAX,
    ensures
        held(*final(buf)) == held(*old(buf)) + extend@,
;

/// `Vec::from` on a `BytesMut`: the same bytes as a vector.
#[verifier::external_body]
pub(crate) fn into_vec(buf: BytesMut) -> (bytes: Vec<u8>)
    ensures
        bytes@ == held(buf),
{
    Vec::from(buf)
}

/// `AnyDelimiterCodec::new_with_max_length`: a codec at the start of a stream.
pub assume_specification[ AnyDelimiterCodec::new_with_max_length ](
    seek_delimiters: Vec<u8>,
    sequence_writer: Vec<u8>,
    max_length: usize,
) -> (codec: AnyDelimiterCodec)
    ensures
        codec_state(codec) == (CodecState {
            stops: seek_delimiters@,
            terminator: sequence_writer@,
            limit: max_length as nat,
            scanned: 0,
            discarding: false,
        }),
;

/// `AnyDelimiterCodec::decode`: skips what is left of a chunk that was too long, then takes the
/// chunk before the first stop byte, with that byte, off the buffer. The call fails where the
/// buffer holds more than `limit` bytes and the first `limit + 1` hold no stop byte.
/// Bytes before `scanned` are not looked at again, so the buffer must go on from the last call.
#[verifier::external_body]
pub(crate) fn decode(codec: &mut AnyDelimiterCodec, buf: &mut BytesMut) -> (chunk: Result<
    Option<Vec<u8>>,
    AnyDelimiterCodecError,
>)
    requires
        codec_state(*old(codec)).resumes(held(*old(buf))),
    ensures
        match codec_state(*old(codec)).found(held(*old(buf))) {
            Scan::Chunk(bytes) => chunk matches Ok(Some(got)) && got@ == bytes,
            Scan::TooLong => chunk is Err,
            Scan::Incomplete => chunk matches Ok(got) && got is None,
        },
        held(*final(buf)) == codec_state(*old(codec)).left(held(*old(buf))),
        codec_state(*final(codec)) == codec_state(*old(codec)).decoded(held(*old(buf))),
{
    codec.decode(buf).map(|chunk| chunk.map(|bytes| bytes.to_vec()))
}

/// `AnyDelimiterCodec::decode_eof`: as `decode`, but where that finds no chunk, all the bytes
/// that it left, if there are any, are one.
#[verifier::external_body]
pub(crate) fn decode_eof(codec: &mut AnyDelimiterCodec, buf: &mut BytesMut) -> (chunk: Result<
    Option<Vec<u8>>,
    AnyDelimiterCodecError,
>)
    requires
        codec_state(*old(codec)).resumes(held(*old(buf))),
    ensures
        match codec_state(*old(codec)).found(held(*old(buf))) {
            Scan::Chunk(bytes) => {
                &&& chunk matches Ok(Some(got)) && got@ == bytes
                &&& held(*final(buf)) == codec_state(*old(codec)).left(held(*old(buf)))
                &&& codec_state(*final(codec)) == codec_state(*old(codec)).decoded(held(*old(buf)))
            },
            Scan::TooLong => {
                &&& chunk is Err
                &&& held(*final(buf)) == codec_state(*old(codec)).left(held(*old(buf)))
                &&& codec_state(*final(codec)) == codec_state(*old(codec)).decoded(held(*old(buf)))
            },
            Scan::Incomplete => {
                &&& held(*final(buf)) == Seq::<u8>::empty()
                &&& codec_state(*final(codec)) == (CodecState {
                    scanned: 0,
                    ..codec_state(*old(codec)).decoded(held(*old(buf)))
                })
                &&& if codec_state(*old(codec)).left(held(*old(buf))).len() == 0 {
                    chunk matches Ok(got) && got is None
                } else {
                    chunk matches Ok(Some(got)) && got@ == codec_state(*old(codec)).left(
                        held(*old(buf)),
                    )
                }
            },
        },
{
    codec.decode_eof(buf).map(|chunk| chunk.map(|bytes| bytes.to_vec()))
}

/// `AnyDelimiterCodec::encode`: appends the text in UTF-8 and the terminator. It never fails.
/// More than `isize::MAX` bytes cannot be allocated.
#[verifier::external_body]
pub(crate) fn encode(codec: &mut AnyDelimiterCodec, text: &str, buf: &mut BytesMut) -> (done: Result<
    (),
    AnyDelimiterCodecError,
>)
    requires
        held(*old(buf)).len() + vstd::utf8::encode_utf8(text@).len() + codec_state(*old(codec)).terminator.len()
            <= isize::MAX,
    ensures
        done is Ok,
        held(*final(buf)) == held(*old(buf)) + vstd::utf8::encode_utf8(text@) + codec_state(
            *old(codec),
        ).terminator,
        codec_state(*final(codec)) == codec_state(*old(codec)),
{
    codec.encode(text, buf)
}

} // verus!
