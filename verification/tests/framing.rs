use bore::shared::{Delimited, FrameTooLong, RecvError, MAX_FRAME_LENGTH};

type Decoded = Result<Option<Vec<u8>>, FrameTooLong>;

fn json(frame: &[u8]) -> Result<Option<String>, serde_json::Error> {
    serde_json::from_slice(frame)
}

fn frame(bytes: &[u8]) -> Decoded {
    Ok(Some(bytes.to_vec()))
}

fn text(text: &str) -> Result<String, ()> {
    Ok(text.to_string())
}

/// What is received out of a frame.
fn received(bytes: &[u8]) -> Result<Option<String>, RecvError<(), serde_json::Error>> {
    Delimited::recv(Some(Ok(bytes.to_vec())), json)
}

#[test]
fn nothing_was_read() {
    let mut stream = Delimited::new();
    assert_eq!(stream.decode(), Ok(None));
    assert_eq!(stream.decode_eof(), Ok(None));
    assert_eq!(stream.pending_len(), 0);
    assert_eq!(stream.take_outgoing(), Vec::<u8>::new());
}

#[test]
fn sent_text_is_null_terminated() {
    let mut stream = Delimited::new();
    assert_eq!(stream.send(text("\"Heartbeat\"")), Ok(()));
    assert_eq!(stream.send(text("\u{e9}")), Ok(()));
    assert_eq!(stream.take_outgoing(), b"\"Heartbeat\"\0\xc3\xa9\0".to_vec());
    assert_eq!(stream.take_outgoing(), Vec::<u8>::new());
}

#[test]
fn only_the_terminator_is_null() {
    let mut stream = Delimited::new();
    let written = "{\"Error\":\"\u{e9}\u{100}\u{10000}\"}";
    assert_eq!(stream.send(text(written)), Ok(()));
    let bytes = stream.take_outgoing();
    let nulls: Vec<usize> = (0..bytes.len()).filter(|i: &usize| bytes[*i] == 0).collect();
    assert_eq!(nulls, vec![bytes.len() - 1]);
}

#[test]
fn null_in_a_message_is_received() {
    let message = "a\0b".to_string();
    let mut stream = Delimited::new();
    assert!(stream.send(serde_json::to_string(&message)).is_ok());
    let bytes = stream.take_outgoing();
    assert_eq!(bytes, b"\"a\\u0000b\"\0".to_vec());
    stream.on_read(&bytes);
    let decoded = stream.decode().unwrap().unwrap();
    assert!(matches!(received(&decoded), Ok(Some(text)) if text == message));
}

#[test]
fn failed_serialization_sends_nothing() {
    let mut stream = Delimited::new();
    assert_eq!(stream.send(Err("no")), Err("no"));
    assert_eq!(stream.take_outgoing(), Vec::<u8>::new());
}

#[test]
fn sent_message_is_received() {
    let mut sender = Delimited::new();
    let mut receiver = Delimited::new();
    assert!(sender.send(serde_json::to_string("hello \0 there")).is_ok());
    receiver.on_read(&sender.take_outgoing());
    let message = match receiver.decode() {
        Ok(Some(frame)) => received(&frame),
        _ => panic!("no frame"),
    };
    assert!(matches!(message, Ok(Some(text)) if text == "hello \0 there"));
    assert_eq!(receiver.decode(), Ok(None));
}

#[test]
fn texts_are_received_in_order() {
    let mut sender = Delimited::new();
    let mut receiver = Delimited::new();
    for part in ["one", "two", "", "three"] {
        assert_eq!(sender.send(text(part)), Ok(()));
    }
    receiver.on_read(&sender.take_outgoing());
    for part in ["one", "two", "", "three"] {
        assert_eq!(receiver.decode(), frame(part.as_bytes()));
    }
    assert_eq!(receiver.decode(), Ok(None));
}

#[test]
fn text_that_is_too_long_to_be_received() {
    let mut sender = Delimited::new();
    let mut receiver = Delimited::new();
    assert_eq!(sender.send(text(&"x".repeat(MAX_FRAME_LENGTH + 1))), Ok(()));
    receiver.on_read(&sender.take_outgoing());
    assert_eq!(receiver.decode(), Err(FrameTooLong));
}

#[test]
fn frames_are_received_in_order() {
    let mut stream = Delimited::new();
    stream.on_read(b"a\0bc\0\0d");
    assert_eq!(stream.decode(), frame(b"a"));
    assert_eq!(stream.decode(), frame(b"bc"));
    assert_eq!(stream.decode(), frame(b""));
    assert_eq!(stream.decode(), Ok(None));
    assert_eq!(stream.pending_len(), 1);
}

#[test]
fn reads_may_be_split() {
    let mut stream = Delimited::new();
    for byte in b"ab".iter() {
        stream.on_read(&[*byte]);
        assert_eq!(stream.decode(), Ok(None));
    }
    stream.on_read(b"c\0d");
    assert_eq!(stream.decode(), frame(b"abc"));
    assert_eq!(stream.decode(), Ok(None));
    stream.on_read(b"\0");
    assert_eq!(stream.decode(), frame(b"d"));
}

#[test]
fn any_cut_into_reads_gives_the_same() {
    let mut bytes = b"one\0two\0".to_vec();
    bytes.extend_from_slice(&[b'x'; 300]);
    bytes.extend_from_slice(b"\0three\0rest");
    let receive = |size: usize| {
        let mut stream = Delimited::new();
        let mut all = Vec::new();
        for piece in bytes.chunks(size) {
            stream.on_read(piece);
            loop {
                match stream.decode() {
                    Ok(None) => break,
                    decoded => all.push(decoded),
                }
            }
        }
        (all, stream.into_parts().read_buf)
    };
    let expected = vec![frame(b"one"), frame(b"two"), Err(FrameTooLong), frame(b"three")];
    for size in [1, 2, 7, 100, 257, bytes.len()] {
        assert_eq!(receive(size), (expected.clone(), b"rest".to_vec()));
    }
}

#[test]
fn longest_frame_is_received() {
    let mut stream = Delimited::new();
    let longest = [b'x'; MAX_FRAME_LENGTH];
    stream.on_read(&longest);
    assert_eq!(stream.decode(), Ok(None));
    stream.on_read(b"\0");
    assert_eq!(stream.decode(), frame(&longest));
}

#[test]
fn longer_frame_is_refused() {
    let mut stream = Delimited::new();
    stream.on_read(&[b'x'; MAX_FRAME_LENGTH + 1]);
    assert_eq!(stream.decode(), Err(FrameTooLong));
    // The rest of that frame is skipped, then frames are received again.
    stream.on_read(&[b'y'; 600]);
    assert_eq!(stream.decode(), Ok(None));
    assert_eq!(stream.pending_len(), 0);
    stream.on_read(b"zz\0ok\0");
    assert_eq!(stream.decode(), frame(b"ok"));
}

#[test]
fn refused_frame_that_is_whole() {
    let mut stream = Delimited::new();
    let mut bytes = vec![b'x'; MAX_FRAME_LENGTH + 1];
    bytes.extend_from_slice(b"\0next\0");
    stream.on_read(&bytes);
    assert_eq!(stream.decode(), Err(FrameTooLong));
    assert_eq!(stream.decode(), frame(b"next"));
    assert_eq!(stream.decode(), Ok(None));
}

#[test]
fn refused_frame_at_the_end() {
    let mut stream = Delimited::new();
    stream.on_read(&[b'x'; 2 * MAX_FRAME_LENGTH]);
    assert_eq!(stream.decode_eof(), Err(FrameTooLong));
    assert_eq!(stream.decode_eof(), Ok(None));
    assert_eq!(stream.pending_len(), 0);
}

#[test]
fn last_frame_needs_no_terminator() {
    let mut stream = Delimited::new();
    stream.on_read(b"a\0rest");
    assert_eq!(stream.decode(), frame(b"a"));
    assert_eq!(stream.decode(), Ok(None));
    assert_eq!(stream.decode_eof(), frame(b"rest"));
    assert_eq!(stream.decode_eof(), Ok(None));
}

#[test]
fn frames_before_the_end() {
    let mut stream = Delimited::new();
    stream.on_read(b"a\0b");
    assert_eq!(stream.decode_eof(), frame(b"a"));
    assert_eq!(stream.decode_eof(), frame(b"b"));
    assert_eq!(stream.decode_eof(), Ok(None));
    // A stream that goes on after its end is received again.
    stream.on_read(b"c\0");
    assert_eq!(stream.decode(), frame(b"c"));
}

#[test]
fn end_of_stream_is_no_message() {
    let none: Option<Result<Vec<u8>, ()>> = None;
    assert!(matches!(Delimited::recv(none, json), Ok(None)));
}

#[test]
fn null_counts_as_the_end() {
    assert!(matches!(received(b"null"), Ok(None)));
    assert!(matches!(received(b"\"null\""), Ok(Some(_))));
}

#[test]
fn frame_that_is_no_message() {
    match received(b"{") {
        Err(err) => {
            assert!(matches!(err, RecvError::Parse(_)));
            assert_eq!(err.message(), "unable to parse message");
        }
        Ok(_) => panic!("no error"),
    }
    assert!(matches!(received(b""), Err(RecvError::Parse(_))));
}

#[test]
fn frame_that_could_not_be_read() {
    match Delimited::recv(Some(Err(FrameTooLong)), json) {
        Err(err) => {
            assert!(matches!(err, RecvError::Frame(FrameTooLong)));
            assert_eq!(err.message(), "frame error, invalid byte length");
        }
        Ok(_) => panic!("no error"),
    }
}

#[test]
fn initial_message_may_come_too_late() {
    type Message = Result<Option<u8>, RecvError<(), ()>>;
    let late: Message = Delimited::recv_timeout(None);
    assert_eq!(late, Err(RecvError::TimedOut));
    let outcomes: Vec<Message> = vec![Ok(Some(1)), Ok(None), Err(RecvError::Frame(()))];
    let expected: Vec<Message> = vec![Ok(Some(1)), Ok(None), Err(RecvError::Frame(()))];
    for (outcome, expected) in outcomes.into_iter().zip(expected) {
        assert_eq!(Delimited::recv_timeout(Some(outcome)), expected);
    }
    assert_eq!(
        RecvError::<(), ()>::TimedOut.message(),
        "timed out waiting for initial message"
    );
}

#[test]
fn parts_hold_what_was_not_received() {
    let mut stream = Delimited::new();
    stream.on_read(b"accept\0GET / HTTP/1.1\0\r\n");
    assert_eq!(stream.decode(), frame(b"accept"));
    assert_eq!(stream.send(text("x")), Ok(()));
    let parts = stream.into_parts();
    assert_eq!(parts.read_buf, b"GET / HTTP/1.1\0\r\n".to_vec());
    assert_eq!(parts.write_buf, b"x\0".to_vec());
}
