# tonic-ws-transport

gRPC (or any byte protocol) tunnelled through a web socket, with its logic
verified by Verus.

- `src/` is the verified library:
  - `frames`: how a write becomes one binary message (`outgoing_frame`), how
    each incoming message or socket error becomes part of the reader's byte
    stream (`incoming_chunk`), and `read_to_end`, which folds
    `incoming_chunk` over a finite stream. The spec function `read_outcome`
    describes what a reader receives from a sequence of incoming items; the
    proof functions state the tunnel's laws over it (what is written is read
    back, in order; pings and pongs are invisible; a close message or an error
    ends the stream for a reader that stops at its first error), and
    `read_to_end` is proved equal to it.
  - `transport`: the connector, its token resolver, and the opening request
    (`ConnectRequest`: a GET for the address, with `authorization: Bearer
    <token>` when the connector has a resolver) and its conversion into the
    `http` request that it describes.
  - `channel`, `connection`: the channel and first connector types.
- `app/` holds the asynchronous parts: the `tower` connector services, the
  connection's `AsyncRead`/`AsyncWrite` implementations, and the
  conversions between the library's types and those of `tungstenite`,
  `bytes` and `std::io`.
- `tests/` exercises the library on concrete values.
