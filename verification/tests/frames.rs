use tonic_ws_transport::frames::{incoming_chunk, outgoing_frame, read_to_end, ReadError, WsMessage};

fn frame(buf: &[u8]) -> WsMessage {
    outgoing_frame(buf).0
}

fn ok(msgs: Vec<WsMessage>) -> Vec<Result<WsMessage, tungstenite::Error>> {
    msgs.into_iter().map(Ok).collect()
}

#[test]
fn write_becomes_one_binary_message() {
    let (msg, written) = outgoing_frame(&[1, 2, 3]);
    assert_eq!(written, 3);
    assert!(matches!(msg, WsMessage::Binary(ref b) if b == &vec![1, 2, 3]));
}

#[test]
fn empty_write_sends_empty_message() {
    let (msg, written) = outgoing_frame(&[]);
    assert_eq!(written, 0);
    assert!(matches!(msg, WsMessage::Binary(ref b) if b.is_empty()));
}

#[test]
fn binary_message_is_data() {
    let chunk = incoming_chunk(Ok(WsMessage::Binary(vec![7, 8])));
    assert!(matches!(chunk, Some(Ok(ref d)) if d == &vec![7, 8]));
}

#[test]
fn text_message_is_its_utf8_bytes() {
    let text = "héllo".to_string();
    let chunk = incoming_chunk(Ok(WsMessage::Text(text.clone().into_bytes())));
    assert!(matches!(chunk, Some(Ok(ref d)) if d.as_slice() == text.as_bytes()));
}

#[test]
fn ping_and_pong_are_skipped() {
    assert!(incoming_chunk(Ok(WsMessage::Ping(vec![1]))).is_none());
    assert!(incoming_chunk(Ok(WsMessage::Pong(vec![2]))).is_none());
}

#[test]
fn close_aborts_the_stream() {
    let chunk = incoming_chunk(Ok(WsMessage::Close));
    assert!(matches!(chunk, Some(Err(ReadError::ConnectionAborted))));
}

#[test]
fn socket_error_is_passed_on() {
    let chunk = incoming_chunk(Err(tungstenite::Error::AlreadyClosed));
    assert!(matches!(
        chunk,
        Some(Err(ReadError::Other(tungstenite::Error::AlreadyClosed)))
    ));
}

#[test]
fn written_bytes_read_back() {
    let (bytes, end) = read_to_end(ok(vec![frame(b"hello")]));
    assert_eq!(bytes, b"hello".to_vec());
    assert!(end.is_none());
}

#[test]
fn empty_stream_reads_nothing() {
    let (bytes, end) = read_to_end(Vec::new());
    assert!(bytes.is_empty());
    assert!(end.is_none());
}

#[test]
fn writes_arrive_concatenated() {
    let writes: Vec<&[u8]> = vec![b"ab", b"", b"cde", b"f"];
    let msgs = writes.iter().map(|w| frame(w)).collect();
    let (bytes, end) = read_to_end(ok(msgs));
    assert_eq!(bytes, b"abcdef".to_vec());
    assert!(end.is_none());
}

#[test]
fn control_messages_leave_stream_unchanged() {
    let with_control = ok(vec![
        WsMessage::Ping(vec![9]),
        frame(b"ab"),
        WsMessage::Pong(vec![]),
        WsMessage::Pong(vec![1]),
        frame(b"cd"),
        WsMessage::Ping(vec![]),
        WsMessage::Close,
    ]);
    let without = ok(vec![frame(b"ab"), frame(b"cd"), WsMessage::Close]);
    let (a, end_a) = read_to_end(with_control);
    let (b, end_b) = read_to_end(without);
    assert_eq!(a, b"abcd".to_vec());
    assert_eq!(a, b);
    assert!(matches!(end_a, Some(ReadError::ConnectionAborted)));
    assert!(matches!(end_b, Some(ReadError::ConnectionAborted)));
}

#[test]
fn nothing_after_close_is_read() {
    let msgs = ok(vec![frame(b"ab"), WsMessage::Close, frame(b"cd")]);
    let (bytes, end) = read_to_end(msgs);
    assert_eq!(bytes, b"ab".to_vec());
    assert!(matches!(end, Some(ReadError::ConnectionAborted)));
}

#[test]
fn nothing_after_socket_error_is_read() {
    let items = vec![
        Ok(frame(b"ab")),
        Err(tungstenite::Error::AlreadyClosed),
        Ok(frame(b"cd")),
    ];
    let (bytes, end) = read_to_end(items);
    assert_eq!(bytes, b"ab".to_vec());
    assert!(matches!(
        end,
        Some(ReadError::Other(tungstenite::Error::AlreadyClosed))
    ));
}

#[test]
fn stream_splits_before_close() {
    let (a, _) = read_to_end(ok(vec![frame(b"x"), WsMessage::Pong(vec![]), frame(b"yz")]));
    let (b, end_b) = read_to_end(ok(vec![frame(b"12"), WsMessage::Text(b"3".to_vec())]));
    let (ab, end_ab) = read_to_end(ok(vec![
        frame(b"x"),
        WsMessage::Pong(vec![]),
        frame(b"yz"),
        frame(b"12"),
        WsMessage::Text(b"3".to_vec()),
    ]));
    let mut expected = a.clone();
    expected.extend(b);
    assert_eq!(ab, expected);
    assert_eq!(ab, b"xyz123".to_vec());
    assert!(end_b.is_none() && end_ab.is_none());
}
