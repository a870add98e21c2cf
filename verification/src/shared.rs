//! Shared data structures, utilities, and protocol definitions.
use crate::delimiter;
use crate::framing::{Arrival, StreamState};
use tokio_util::bytes::BytesMut;
use tokio_util::codec::AnyDelimiterCodec;
use vstd::prelude::*;

verus! {

/// TCP port used for control connections with the server.
pub const CONTROL_PORT: u16 = 7835;

/// Maximum byte length for a JSON frame in the stream.
pub const MAX_FRAME_LENGTH: usize = 256;

/// Timeout for network connections and initial protocol messages, in milliseconds.
pub const NETWORK_TIMEOUT_MS: u64 = 3000;

/// Publicly exposed endpoint connections are forwarded from.
#[derive(Clone, Copy, Debug, PartialEq, Eq, Structural)]
pub enum ForwardingEndpoint {
    /// A TCP port.
    Tcp(u16),
    /// An HTTP/HTTPS endpoint.
    Http,
}

/// A message from the client on the control connection. Connections go by the 128 bits of a
/// UUID.
#[derive(Debug, PartialEq, Eq)]
pub enum ClientMessage {
    /// Response to an authentication challenge from the server.
    Authenticate(String),

    /// Initial client message specifying a public endpoint to forward to.
    Hello(ForwardingEndpoint),

    /// Accepts an incoming TCP connection, using this stream as a proxy.
    Accept(u128),
}

/// A message from the server on the control connection. Challenges and connections go by the
/// 128 bits of a UUID.
#[derive(Debug, PartialEq, Eq)]
pub enum ServerMessage {
    /// Authentication challenge, sent as the first message, if enabled.
    Challenge(u128),

    /// Response to a client's initial message, with the actual public forwarding endpoint.
    Hello(ForwardingEndpoint),

    /// No-op used to test if the client is still reachable.
    Heartbeat,

    /// Asks the client to accept a forwarded TCP connection.
    Connection(u128),

    /// Indicates a server error that terminates the connection.
    Error(String),
}

/// What a [`ClientMessage`] says.
pub enum ClientSays {
    Authenticate(Seq<char>),
    Hello(ForwardingEndpoint),
    Accept(u128),
}

/// What a [`ServerMessage`] says.
pub enum ServerSays {
    Challenge(u128),
    Hello(ForwardingEndpoint),
    Heartbeat,
    Connection(u128),
    Error(Seq<char>),
}

impl View for ClientMessage {
    type V = ClientSays;

    open spec fn view(&self) -> ClientSays {
        match self {
            ClientMessage::Authenticate(answer) => ClientSays::Authenticate(answer@),
            ClientMessage::Hello(endpoint) => ClientSays::Hello(*endpoint),
            ClientMessage::Accept(id) => ClientSays::Accept(*id),
        }
    }
}

impl View for ServerMessage {
    type V = ServerSays;

    open spec fn view(&self) -> ServerSays {
        match self {
            ServerMessage::Challenge(id) => ServerSays::Challenge(*id),
            ServerMessage::Hello(endpoint) => ServerSays::Hello(*endpoint),
            ServerMessage::Heartbeat => ServerSays::Heartbeat,
            ServerMessage::Connection(id) => ServerSays::Connection(*id),
            ServerMessage::Error(text) => ServerSays::Error(text@),
        }
    }
}

/// A frame is longer than [`MAX_FRAME_LENGTH`].
#[derive(Clone, Copy, Debug, PartialEq, Eq, Structural)]
pub struct FrameTooLong;

/// Why no message was received.
#[derive(Debug, PartialEq, Eq)]
pub enum RecvError<X, E> {
    /// There is no frame, for the reason given.
    Frame(X),
    /// The frame is not a message, for the reason given.
    Parse(E),
    /// Nothing came in for [`NETWORK_TIMEOUT_MS`].
    TimedOut,
}

impl<X, E> RecvError<X, E> {
    /// What the error says.
    pub open spec fn text(self) -> Seq<char> {
        match self {
            RecvError::Frame(_) => "frame error, invalid byte length"@,
            RecvError::Parse(_) => "unable to parse message"@,
            RecvError::TimedOut => "timed out waiting for initial message"@,
        }
    }

    /// What the error says.
    pub fn message(&self) -> (message: &'static str)
        ensures
            message@ == self.text(),
    {
        match self {
            RecvError::Frame(_) => "frame error, invalid byte length",
            RecvError::Parse(_) => "unable to parse message",
            RecvError::TimedOut => "timed out waiting for initial message",
        }
    }
}

/// Transport stream with JSON frames delimited by null characters.
///
/// The stream does no reading or writing of its own: what is read from the peer is handed in by
/// [`Delimited::on_read`], and what is to be written comes out of [`Delimited::take_outgoing`].
pub struct Delimited {
    codec: AnyDelimiterCodec,
    read_buf: BytesMut,
    write_buf: BytesMut,
}

/// The buffers of a stream that is no longer framed.
pub struct Parts {
    /// Bytes that were read behind the last frame.
    pub read_buf: Vec<u8>,
    /// Bytes that were sent and not yet written.
    pub write_buf: Vec<u8>,
}

impl View for Delimited {
    type V = StreamState;

    closed spec fn view(&self) -> StreamState {
        StreamState {
            pending: delimiter::held(self.read_buf),
            outgoing: delimiter::held(self.write_buf),
            discarding: delimiter::codec_state(self.codec).discarding,
        }
    }
}

/// Whether `frame` is what decoding gives for an arrival.
pub open spec fn is_decoded(
    arrival: Arrival,
    frame: Result<Option<Vec<u8>>, FrameTooLong>,
) -> bool {
    match arrival {
        Arrival::Nothing => frame matches Ok(None),
        Arrival::Frame(bytes) => frame matches Ok(Some(got)) && got@ == bytes,
        Arrival::TooLong => frame is Err,
    }
}

impl Delimited {
    /// Whether the codec fits what it has read so far.
    pub closed spec fn wf(self) -> bool {
        let state = delimiter::codec_state(self.codec);
        &&& state.resumes(self@.pending)
        &&& state == (delimiter::CodecState { scanned: state.scanned, ..self@.codec() })
    }

    /// Construct a new delimited stream.
    pub fn new() -> (stream: Self)
        ensures
            stream.wf(),
            stream@ == StreamState::fresh(),
    {
        let codec = AnyDelimiterCodec::new_with_max_length(vec![0], vec![0], MAX_FRAME_LENGTH);
        assert(delimiter::codec_state(codec).stops =~= crate::framing::terminator());
        assert(delimiter::codec_state(codec).terminator =~= crate::framing::terminator());
        Delimited { codec, read_buf: BytesMut::new(), write_buf: BytesMut::new() }
    }

    /// Hand in what was read from the peer.
    pub fn on_read(&mut self, bytes: &[u8])
        requires
            old(self).wf(),
            old(self)@.pending.len() + bytes@.len() <= isize::MAX,
        ensures
            final(self).wf(),
            final(self)@ == old(self)@.read(bytes@),
    {
        proof {
            delimiter::lemma_resumes(
                delimiter::codec_state(self.codec),
                self@.pending,
                bytes@,
            );
        }
        self.read_buf.extend_from_slice(bytes);
    }

    /// The number of bytes that were read and not yet received.
    pub fn pending_len(&self) -> (len: usize)
        ensures
            len == self@.pending.len(),
    {
        self.read_buf.len()
    }

    /// Take the next frame off what was read, if a whole one is there.
    pub fn decode(&mut self) -> (frame: Result<Option<Vec<u8>>, FrameTooLong>)
        requires
            old(self).wf(),
        ensures
            final(self).wf(),
            final(self)@ == old(self)@.received(false),
            is_decoded(old(self)@.arrival(false), frame),
    {
        proof {
            delimiter::lemma_resumes(
                delimiter::codec_state(self.codec),
                self@.pending,
                Seq::empty(),
            );
        }
        match delimiter::decode(&mut self.codec, &mut self.read_buf) {
            Ok(frame) => Ok(frame),
            Err(_) => Err(FrameTooLong),
        }
    }

    /// Take the next frame off what was read, when nothing will follow it.
    pub fn decode_eof(&mut self) -> (frame: Result<Option<Vec<u8>>, FrameTooLong>)
        requires
            old(self).wf(),
        ensures
            final(self).wf(),
            final(self)@ == old(self)@.received(true),
            is_decoded(old(self)@.arrival(true), frame),
    {
        proof {
            delimiter::lemma_resumes(
                delimiter::codec_state(self.codec),
                self@.pending,
                Seq::empty(),
            );
        }
        match delimiter::decode_eof(&mut self.codec, &mut self.read_buf) {
            Ok(frame) => Ok(frame),
            Err(_) => Err(FrameTooLong),
        }
    }

    /// Read a JSON instruction out of the next frame of a stream, where there is one.
    ///
    /// `parse` reads the frame. Where it finds no message in a frame that is well formed, the
    /// stream counts as ended.
    pub fn recv<T, X, E, F: Fn(&[u8]) -> Result<Option<T>, E>>(
        next: Option<Result<Vec<u8>, X>>,
        parse: F,
    ) -> (message: Result<Option<T>, RecvError<X, E>>)
        requires
            forall|frame: &[u8]| call_requires(parse, (frame,)),
        ensures
            match next {
                None => message == Ok::<Option<T>, RecvError<X, E>>(None),
                Some(Err(err)) => message == Err::<Option<T>, RecvError<X, E>>(
                    RecvError::Frame(err),
                ),
                Some(Ok(bytes)) => exists|frame: &[u8], parsed: Result<Option<T>, E>|
                    {
                        &&& frame@ == bytes@
                        &&& #[trigger] call_ensures(parse, (frame,), parsed)
                        &&& message == match parsed {
                            Ok(found) => Ok::<Option<T>, RecvError<X, E>>(found),
                            Err(err) => Err(RecvError::Parse(err)),
                        }
                    },
            },
    {
        match next {
            None => Ok(None),
            Some(Err(err)) => Err(RecvError::Frame(err)),
            Some(Ok(bytes)) => {
                let parsed = parse(bytes.as_slice());
                match parsed {
                    Ok(found) => Ok(found),
                    Err(err) => Err(RecvError::Parse(err)),
                }
            },
        }
    }

    /// What came of receiving a JSON instruction with a default timeout. `outcome` is what was
    /// received within [`NETWORK_TIMEOUT_MS`], if that was not over first.
    ///
    /// This is useful for parsing the initial message of a stream for handshake or
    /// other protocol purposes, where we do not want to wait indefinitely.
    pub fn recv_timeout<T, X, E>(outcome: Option<Result<Option<T>, RecvError<X, E>>>) -> (message:
        Result<Option<T>, RecvError<X, E>>)
        ensures
            message == match outcome {
                Some(received) => received,
                None => Err(RecvError::TimedOut),
            },
    {
        match outcome {
            Some(received) => received,
            None => Err(RecvError::TimedOut),
        }
    }

    /// Send a null-terminated JSON instruction. `json` is what writing the message as JSON came
    /// to; where that failed nothing is sent.
    pub fn send<E>(&mut self, json: Result<String, E>) -> (sent: Result<(), E>)
        requires
            old(self).wf(),
            json matches Ok(text) ==> old(self)@.outgoing.len() + vstd::utf8::encode_utf8(
                text@,
            ).len() < isize::MAX,
        ensures
            final(self).wf(),
            match json {
                Ok(text) => sent is Ok && final(self)@ == old(self)@.sent(text@),
                Err(err) => sent == Err::<(), E>(err) && final(self)@ == old(self)@,
            },
    {
        match json {
            Ok(text) => {
                let _ = delimiter::encode(&mut self.codec, text.as_str(), &mut self.write_buf);
                assert(self@ =~= old(self)@.sent(text@));
                Ok(())
            },
            Err(err) => Err(err),
        }
    }

    /// Take all the bytes that are to be written to the peer.
    pub fn take_outgoing(&mut self) -> (bytes: Vec<u8>)
        requires
            old(self).wf(),
        ensures
            final(self).wf(),
            bytes@ == old(self)@.outgoing,
            final(self)@ == (StreamState { outgoing: Seq::empty(), ..old(self)@ }),
    {
        let mut outgoing = BytesMut::new();
        std::mem::swap(&mut outgoing, &mut self.write_buf);
        delimiter::into_vec(outgoing)
    }

    /// Consume this object, returning current buffers.
    pub fn into_parts(self) -> (parts: Parts)
        ensures
            parts.read_buf@ == self@.pending,
            parts.write_buf@ == self@.outgoing,
    {
        Parts {
            read_buf: delimiter::into_vec(self.read_buf),
            write_buf: delimiter::into_vec(self.write_buf),
        }
    }
}

/// Decoding gives the bytes of a frame, nothing where none is there, and an error for one that is
/// too long; and it gives each of these for nothing else.
pub proof fn lemma_decoded(arrival: Arrival, frame: Result<Option<Vec<u8>>, FrameTooLong>)
    ensures
        is_decoded(arrival, frame) <==> match frame {
            Ok(Some(bytes)) => arrival == Arrival::Frame(bytes@),
            Ok(None) => arrival is Nothing,
            Err(_) => arrival is TooLong,
        },
{
}

/// What each error of receiving says.
pub proof fn lemma_receive_errors<X, E>(err: RecvError<X, E>)
    ensures
        err is Frame ==> err.text() == "frame error, invalid byte length"@,
        err is Parse ==> err.text() == "unable to parse message"@,
        err is TimedOut ==> err.text() == "timed out waiting for initial message"@,
{
}

} // verus!
