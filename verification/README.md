# nanorpc

RPC for binary messages, with the protocol and the decisions of both ends
verified by Verus. Calls are multiplexed over one byte stream behind a 16-byte
frame header; every call ends with exactly one CLOSE frame that carries a
status, and status codes keep gRPC's numbers.

| path | what it does |
|---|---|
| `src/` | the library: frames, statuses, routing, and what a server and a client do about each frame. No I/O, no clock, no threads |
| `app/` | the runtime around it: sockets, threads, clocks |
| `tests/` | the library on concrete values, and a client against a server over bytes in memory |

## What is proved

Every function states in its contract what it returns. Beyond that,
`src/laws.rs` states what holds between the parts, among it:

- a response, a failure's code and detail, and the messages that a stream's
  sink accepted, in their order, reach the caller through the bytes on the wire
- however the frames of many calls are interleaved, each call finds what it
  would have found alone
- frames for a call that ended are ignored, and a call that ended leaves
  nothing behind
- a lost connection reaches every waiting call, and a deadline cuts the wait
- a server never runs more calls than its cap, and answers every probe once,
  in order

Laws about one module stand in that module, such as the round trips of headers,
prologues and frames in `src/frame.rs`.

## What is trusted

`String::from_utf8_lossy` and `str::to_uppercase` are called as they are, and
`std::io::Error` is carried through unread. Each is declared where it is used,
with what is claimed of it. What an implementation of `Message` returns is taken
as it comes: nothing is claimed of it.

Server streaming works; client and bidirectional streaming are not part of
version 1 of the protocol. There is no TLS, so terminate it underneath.
