//! How bytes travel through a web socket: every write becomes one binary
//! message, and the reading side turns the incoming messages back into a
//! stream of bytes.
use vstd::prelude::*;

verus! {

/// A web socket message as the connection sees it.
///
/// A text message carries the UTF-8 bytes of its text; the payload of a
/// close message plays no part in the tunnel and is not kept.
pub enum WsMessage {
    Text(Vec<u8>),
    Binary(Vec<u8>),
    Ping(Vec<u8>),
    Pong(Vec<u8>),
    Close,
}

/// The mathematical value of a [`WsMessage`].
pub enum MessageView {
    Text(Seq<u8>),
    Binary(Seq<u8>),
    Ping(Seq<u8>),
    Pong(Seq<u8>),
    Close,
}

impl View for WsMessage {
    type V = MessageView;

    open spec fn view(&self) -> MessageView {
        match self {
            WsMessage::Text(b) => MessageView::Text(b@),
            WsMessage::Binary(b) => MessageView::Binary(b@),
            WsMessage::Ping(b) => MessageView::Ping(b@),
            WsMessage::Pong(b) => MessageView::Pong(b@),
            WsMessage::Close => MessageView::Close,
        }
    }
}

/// Why the byte stream of a connection stopped.
#[derive(Debug)]
pub enum ReadError {
    /// The peer sent a close message: the reader fails with
    /// `ConnectionAborted` and the cause `ConnectionClosed`.
    ConnectionAborted,
    /// The web socket failed: the reader fails with `Other` and this cause.
    Other(tungstenite::Error),
}

/// What one incoming message contributes to the byte stream.
pub enum Chunk {
    /// These bytes follow in the stream.
    Data(Seq<u8>),
    /// Nothing: the message is left out of the stream.
    Skip,
    /// The stream ends with a `ConnectionAborted` error.
    Closed,
}

/// Data messages, text or binary, carry bytes; ping and pong are control
/// messages that the stream skips; a close message ends it.
pub open spec fn chunk_of(msg: MessageView) -> Chunk {
    match msg {
        MessageView::Text(b) => Chunk::Data(b),
        MessageView::Binary(b) => Chunk::Data(b),
        MessageView::Ping(_) => Chunk::Skip,
        MessageView::Pong(_) => Chunk::Skip,
        MessageView::Close => Chunk::Closed,
    }
}

/// The value of one item of the incoming stream: a message, or the web
/// socket's error.
pub open spec fn item_view(item: Result<WsMessage, tungstenite::Error>) -> Result<
    MessageView,
    tungstenite::Error,
> {
    match item {
        Ok(msg) => Ok(msg@),
        Err(e) => Err(e),
    }
}

/// The values of a sequence of incoming items.
pub open spec fn items_view(items: Seq<Result<WsMessage, tungstenite::Error>>) -> Seq<
    Result<MessageView, tungstenite::Error>,
> {
    items.map_values(|item: Result<WsMessage, tungstenite::Error>| item_view(item))
}

/// Whether an incoming item ends the byte stream: a close message or an
/// error of the web socket.
pub open spec fn is_terminal(item: Result<MessageView, tungstenite::Error>) -> bool {
    match item {
        Ok(msg) => chunk_of(msg) is Closed,
        Err(_) => true,
    }
}

/// Whether an incoming item is a control message, ping or pong.
pub open spec fn is_control(item: Result<MessageView, tungstenite::Error>) -> bool {
    match item {
        Ok(msg) => chunk_of(msg) is Skip,
        Err(_) => false,
    }
}

/// Whether some item of `items` ends the byte stream.
pub open spec fn has_terminal(items: Seq<Result<MessageView, tungstenite::Error>>) -> bool {
    exists|i: int| 0 <= i < items.len() && is_terminal(items[i])
}

/// The error with which a terminal item ends the byte stream.
pub open spec fn end_of(item: Result<MessageView, tungstenite::Error>) -> Option<ReadError> {
    match item {
        Ok(_) => Some(ReadError::ConnectionAborted),
        Err(e) => Some(ReadError::Other(e)),
    }
}

/// What a reader of the connection receives when the peer's stream yields
/// `items` and then ends: the payloads of the data messages, concatenated,
/// and how the stream ends. It ends at the first close message, with
/// `ConnectionAborted`, or at the first error of the web socket, with that
/// error; otherwise at the end of the items, with no error.
///
/// This is what a reader receives that stops at its first error, as readers
/// of a byte stream do. `tokio_util`'s `StreamReader`, read again after
/// handing out an error, would go on polling the stream; what it gives then
/// is outside this description.
pub open spec fn read_outcome(items: Seq<Result<MessageView, tungstenite::Error>>) -> (
    Seq<u8>,
    Option<ReadError>,
)
    decreases items.len(),
{
    if items.len() == 0 {
        (Seq::empty(), None)
    } else {
        let rest = read_outcome(items.drop_first());
        match items[0] {
            Ok(msg) => match chunk_of(msg) {
                Chunk::Data(b) => (b + rest.0, rest.1),
                Chunk::Skip => rest,
                Chunk::Closed => (Seq::empty(), Some(ReadError::ConnectionAborted)),
            },
            Err(e) => (Seq::empty(), Some(ReadError::Other(e))),
        }
    }
}

/// `items` with every ping and pong left out.
pub open spec fn without_control(items: Seq<Result<MessageView, tungstenite::Error>>) -> Seq<
    Result<MessageView, tungstenite::Error>,
>
    decreases items.len(),
{
    if items.len() == 0 {
        items
    } else if is_control(items[0]) {
        without_control(items.drop_first())
    } else {
        seq![items[0]] + without_control(items.drop_first())
    }
}

/// The message that one write of the bytes `buf` sends.
pub open spec fn frame_of(buf: Seq<u8>) -> MessageView {
    MessageView::Binary(buf)
}

/// Turns one item of the incoming message stream into what the reader gets:
/// `Some(Ok(bytes))` for the payload of a data message, `None` for a ping or
/// a pong, a `ConnectionAborted` error for a close message and an `Other`
/// error that carries the web socket's error.
pub fn incoming_chunk(incoming: Result<WsMessage, tungstenite::Error>) -> (chunk: Option<
    Result<Vec<u8>, ReadError>,
>)
    ensures
        match incoming {
            Ok(msg) => match chunk_of(msg@) {
                Chunk::Data(b) => chunk matches Some(Ok(data)) && data@ == b,
                Chunk::Skip => chunk is None,
                Chunk::Closed => chunk matches Some(Err(ReadError::ConnectionAborted)),
            },
            Err(e) => chunk == Some(Err::<Vec<u8>, ReadError>(ReadError::Other(e))),
        },
        incoming matches Ok(WsMessage::Binary(b)) ==> chunk matches Some(Ok(data)) && data@
            == b@,
        incoming matches Ok(WsMessage::Text(b)) ==> chunk matches Some(Ok(data)) && data@ == b@,
        incoming matches Ok(WsMessage::Ping(_)) ==> chunk is None,
        incoming matches Ok(WsMessage::Pong(_)) ==> chunk is None,
        incoming matches Ok(WsMessage::Close) ==> chunk matches Some(
            Err(ReadError::ConnectionAborted),
        ),
{
    match incoming {
        Ok(WsMessage::Binary(data)) => Some(Ok(data)),
        Ok(WsMessage::Text(data)) => Some(Ok(data)),
        Ok(WsMessage::Ping(_)) => None,
        Ok(WsMessage::Pong(_)) => None,
        Ok(WsMessage::Close) => Some(Err(ReadError::ConnectionAborted)),
        Err(e) => Some(Err(ReadError::Other(e))),
    }
}

/// Frames one write: the bytes of `buf` go out as one binary message, and
/// the write reports all of them as written.
pub fn outgoing_frame(buf: &[u8]) -> (res: (WsMessage, usize))
    ensures
        res.0@ == frame_of(buf@),
        res.0@ == MessageView::Binary(buf@),
        res.1 == buf@.len(),
{
    let data = vstd::slice::slice_to_vec(buf);
    (WsMessage::Binary(data), buf.len())
}

/// Reads a finite incoming stream to its end, as the connection's reader
/// does when it stops at its first error: each item goes through
/// [`incoming_chunk`], the data is appended, and the first error ends the
/// reading.
pub fn read_to_end(items: Vec<Result<WsMessage, tungstenite::Error>>) -> (res: (
    Vec<u8>,
    Option<ReadError>,
))
    ensures
        (res.0@, res.1) == read_outcome(items_view(items@)),
{
    let ghost whole = items_view(items@);
    let mut pending = items;
    let mut bytes: Vec<u8> = Vec::new();
    while pending.len() > 0
        invariant
            whole == items_view(items@),
            read_outcome(whole) == (bytes@ + read_outcome(items_view(pending@)).0, read_outcome(
                items_view(pending@),
            ).1),
        decreases pending.len(),
    {
        let ghost before = items_view(pending@);
        let item = pending.remove(0);
        assert(items_view(pending@) =~= before.drop_first());
        assert(before[0] == item_view(item));
        let ghost rest = read_outcome(items_view(pending@));
        match incoming_chunk(item) {
            Some(Ok(data)) => {
                let mut data = data;
                let ghost old_bytes = bytes@;
                let ghost d = data@;
                assert(read_outcome(before) == (d + rest.0, rest.1));
                bytes.append(&mut data);
                assert(old_bytes + (d + rest.0) =~= bytes@ + rest.0);
            },
            Some(Err(e)) => {
                assert(read_outcome(before) == (Seq::<u8>::empty(), Some(e)));
                assert(bytes@ + Seq::<u8>::empty() =~= bytes@);
                return (bytes, Some(e));
            },
            None => {
                assert(read_outcome(before) == rest);
            },
        }
    }
    assert(bytes@ + Seq::<u8>::empty() =~= bytes@);
    (bytes, None)
}

/// Every write goes out as one binary message whose payload is exactly the
/// written bytes, and a reader of that message alone receives those bytes
/// and no error.
pub proof fn lemma_write_is_binary_message(buf: Seq<u8>)
    ensures
        frame_of(buf) == MessageView::Binary(buf),
        frame_of(buf) is Binary,
        read_outcome(seq![Ok::<MessageView, tungstenite::Error>(frame_of(buf))]) == (
            buf,
            None::<ReadError>,
        ),
{
    lemma_single_message(MessageView::Binary(buf));
}

/// What one message, alone in the stream, gives the reader: a binary or a
/// text message all of its payload, a ping or a pong nothing and no error,
/// a close message nothing and `ConnectionAborted`.
pub proof fn lemma_single_message(msg: MessageView)
    ensures
        msg matches MessageView::Binary(b) ==> read_outcome(
            seq![Ok::<MessageView, tungstenite::Error>(msg)],
        ) == (b, None::<ReadError>),
        msg matches MessageView::Text(b) ==> read_outcome(
            seq![Ok::<MessageView, tungstenite::Error>(msg)],
        ) == (b, None::<ReadError>),
        msg is Ping ==> read_outcome(seq![Ok::<MessageView, tungstenite::Error>(msg)]) == (
            Seq::<u8>::empty(),
            None::<ReadError>,
        ),
        msg is Pong ==> read_outcome(seq![Ok::<MessageView, tungstenite::Error>(msg)]) == (
            Seq::<u8>::empty(),
            None::<ReadError>,
        ),
        msg is Close ==> read_outcome(seq![Ok::<MessageView, tungstenite::Error>(msg)]) == (
            Seq::<u8>::empty(),
            Some(ReadError::ConnectionAborted),
        ),
{
    let one = seq![Ok::<MessageView, tungstenite::Error>(msg)];
    assert(one.drop_first() =~= Seq::<Result<MessageView, tungstenite::Error>>::empty());
    assert(read_outcome(one.drop_first()) == (Seq::<u8>::empty(), None::<ReadError>));
    match msg {
        MessageView::Binary(b) => {
            assert(b + Seq::<u8>::empty() =~= b);
        },
        MessageView::Text(b) => {
            assert(b + Seq::<u8>::empty() =~= b);
        },
        _ => {},
    }
}

/// How each kind of message enters the byte stream, whatever its payload:
/// binary and text messages give all their bytes, pings and pongs are left
/// out (they are control messages), and a close message ends the stream.
pub proof fn lemma_message_kinds(b: Seq<u8>)
    ensures
        chunk_of(MessageView::Binary(b)) == Chunk::Data(b),
        chunk_of(MessageView::Text(b)) == Chunk::Data(b),
        chunk_of(MessageView::Ping(b)) == Chunk::Skip,
        chunk_of(MessageView::Pong(b)) == Chunk::Skip,
        chunk_of(MessageView::Close) == Chunk::Closed,
        is_control(Ok::<MessageView, tungstenite::Error>(MessageView::Ping(b))),
        is_control(Ok::<MessageView, tungstenite::Error>(MessageView::Pong(b))),
        !is_control(Ok::<MessageView, tungstenite::Error>(MessageView::Text(b))),
        !is_control(Ok::<MessageView, tungstenite::Error>(MessageView::Binary(b))),
        is_terminal(Ok::<MessageView, tungstenite::Error>(MessageView::Close)),
        !is_terminal(Ok::<MessageView, tungstenite::Error>(MessageView::Text(b))),
        !is_terminal(Ok::<MessageView, tungstenite::Error>(MessageView::Binary(b))),
{
}

/// A write comes out of the reader unchanged: the message that writing `buf`
/// sends gives the reader exactly the bytes of `buf`.
pub proof fn lemma_frame_read_back(buf: Seq<u8>)
    ensures
        chunk_of(frame_of(buf)) == Chunk::Data(buf),
        read_outcome(seq![Ok(frame_of(buf))]) == (buf, None::<ReadError>),
{
    let one = seq![Ok::<MessageView, tungstenite::Error>(frame_of(buf))];
    assert(one.drop_first() =~= Seq::<Result<MessageView, tungstenite::Error>>::empty());
    assert(read_outcome(one.drop_first()) == (Seq::<u8>::empty(), None::<ReadError>));
    assert(buf + Seq::<u8>::empty() =~= buf);
    assert(read_outcome(one) == (buf, None::<ReadError>));
}

/// The first item of a sequence that has no terminal item is not terminal,
/// and neither has the rest.
proof fn lemma_no_terminal_rest(a: Seq<Result<MessageView, tungstenite::Error>>)
    requires
        a.len() > 0,
        !has_terminal(a),
    ensures
        !is_terminal(a[0]),
        !has_terminal(a.drop_first()),
{
    assert(!is_terminal(a[0])) by {
        if is_terminal(a[0]) {
            assert(0 <= 0 < a.len() && is_terminal(a[0]));
        }
    }
    if has_terminal(a.drop_first()) {
        let i = choose|i: int| 0 <= i < a.drop_first().len() && is_terminal(a.drop_first()[i]);
        assert(is_terminal(a[i + 1]));
    }
}

/// Before a terminal item, what the reader receives from a sequence is what
/// it receives from its first part, followed by what it receives from the
/// rest, which also decides how the stream ends.
pub proof fn lemma_read_concat(
    a: Seq<Result<MessageView, tungstenite::Error>>,
    b: Seq<Result<MessageView, tungstenite::Error>>,
)
    requires
        !has_terminal(a),
    ensures
        read_outcome(a + b) == (read_outcome(a).0 + read_outcome(b).0, read_outcome(b).1),
    decreases a.len(),
{
    if a.len() == 0 {
        assert(a + b =~= b);
        assert(Seq::<u8>::empty() + read_outcome(b).0 =~= read_outcome(b).0);
    } else {
        lemma_no_terminal_rest(a);
        assert((a + b).drop_first() =~= a.drop_first() + b);
        assert((a + b)[0] == a[0]);
        lemma_read_concat(a.drop_first(), b);
        match a[0] {
            Ok(msg) => match chunk_of(msg) {
                Chunk::Data(d) => {
                    assert(d + (read_outcome(a.drop_first()).0 + read_outcome(b).0) =~= (d
                        + read_outcome(a.drop_first()).0) + read_outcome(b).0);
                },
                _ => {},
            },
            Err(_) => {},
        }
    }
}

/// The tunnel: when the peer writes the byte strings `writes` one after the
/// other and the stream then ends, the reader receives their concatenation
/// and no error.
pub proof fn lemma_writes_delivered(writes: Seq<Seq<u8>>)
    ensures
        read_outcome(
            writes.map_values(
                |w: Seq<u8>| Ok::<MessageView, tungstenite::Error>(frame_of(w)),
            ),
        ) == (writes.flatten(), None::<ReadError>),
    decreases writes.len(),
{
    let frames = writes.map_values(
        |w: Seq<u8>| Ok::<MessageView, tungstenite::Error>(frame_of(w)),
    );
    if writes.len() == 0 {
        assert(frames.len() == 0);
    } else {
        assert(frames.drop_first() =~= writes.drop_first().map_values(
            |w: Seq<u8>| Ok::<MessageView, tungstenite::Error>(frame_of(w)),
        ));
        lemma_writes_delivered(writes.drop_first());
        assert(frames[0] == Ok::<MessageView, tungstenite::Error>(frame_of(writes[0])));
    }
}

/// Ping and pong messages are invisible to the reader: leaving all of them
/// out changes neither the bytes it receives nor how the stream ends.
pub proof fn lemma_control_messages_invisible(items: Seq<Result<MessageView, tungstenite::Error>>)
    ensures
        read_outcome(items) == read_outcome(without_control(items)),
    decreases items.len(),
{
    if items.len() > 0 {
        lemma_control_messages_invisible(items.drop_first());
        if !is_control(items[0]) {
            let w = seq![items[0]] + without_control(items.drop_first());
            assert(w[0] == items[0]);
            assert(w.drop_first() =~= without_control(items.drop_first()));
        }
    }
}

/// Two incoming streams that differ only in their pings and pongs give the
/// reader the same bytes and the same end.
pub proof fn lemma_same_without_control(
    a: Seq<Result<MessageView, tungstenite::Error>>,
    b: Seq<Result<MessageView, tungstenite::Error>>,
)
    requires
        without_control(a) == without_control(b),
    ensures
        read_outcome(a) == read_outcome(b),
{
    lemma_control_messages_invisible(a);
    lemma_control_messages_invisible(b);
}

/// Nothing that arrives after a close message or an error reaches a reader
/// that stops at its first error, and the stream ends with that item's
/// error.
pub proof fn lemma_terminal_ends_stream(
    a: Seq<Result<MessageView, tungstenite::Error>>,
    t: Result<MessageView, tungstenite::Error>,
    b: Seq<Result<MessageView, tungstenite::Error>>,
)
    requires
        is_terminal(t),
    ensures
        read_outcome(a + seq![t] + b) == read_outcome(a.push(t)),
        !has_terminal(a) ==> read_outcome(a.push(t)) == (read_outcome(a).0, end_of(t)),
    decreases a.len(),
{
    if a.len() == 0 {
        assert((a + seq![t] + b)[0] == t);
        assert(a.push(t)[0] == t);
        assert(a.push(t).drop_first() =~= Seq::<Result<MessageView, tungstenite::Error>>::empty());
    } else {
        assert((a + seq![t] + b).drop_first() =~= a.drop_first() + seq![t] + b);
        assert(a.push(t).drop_first() =~= a.drop_first().push(t));
        assert((a + seq![t] + b)[0] == a[0]);
        assert(a.push(t)[0] == a[0]);
        lemma_terminal_ends_stream(a.drop_first(), t, b);
        if !has_terminal(a) {
            lemma_no_terminal_rest(a);
            match a[0] {
                Ok(msg) => match chunk_of(msg) {
                    Chunk::Data(d) => {
                        assert(d + read_outcome(a.drop_first()).0 == read_outcome(a).0);
                    },
                    _ => {},
                },
                Err(_) => {},
            }
        }
    }
}

} // verus!
