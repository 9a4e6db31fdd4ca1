# hala

The verified core of an asynchronous networking toolkit, written in Verus.

- `src/http1`: an incremental parser for HTTP/1.x request heads. Each
  `RequestBuilder::step` is specified exactly by `step_spec`, and
  `lemma_step_progress` shows that a step only ever takes bytes off the
  front of what is pending, and none when it asks for more.
  `grammar.rs` describes a well-formed head and proves what the parser
  makes of it: more bytes are asked for until it has all arrived, then the
  head is completed with its parts, and a head that arrives in pieces is
  parsed as if it had arrived at once.
- `src/quic`: retry tokens (`mint_token` / `validate_token`), the stream
  buffer of a QUIC stream and the reads of a stream reader (with the law
  that successive reads deliver the data in order), stream-id bookkeeping
  of a connection (streams accepted in first-seen order, each once), the
  queue of accepted connections (handed out in order, nothing after
  close), the client pool's capacity, and the decisions of the connection,
  connect, listener and stream loops (`pacing.rs`, `listener.rs`).
- `src/io`: interest and file-mode bit sets, the poller's readiness
  bookkeeping, read buffers, `WouldBlock` handling and timer decisions.
- `src/future`: event-notification outcomes and the bookkeeping of a batch
  of futures (each future handed to the poller at most once).
- `src/rproxy`: argument parsers, traffic counters and tunnel handshakers
  of the reverse proxy.
- `app/`: the `rproxy` program and the async plumbing (stream reads, waits,
  spawning) around the library.
- `tests/`: tests of the library on concrete values.
