# rally

A small message-passing client and server with their own async runtime.

`src/` is the verified library:

- `data`: the message (`Data`) and its wire format, with proofs that
  decoding an encoded message gives it back and takes exactly its bytes.
  The text's byte length travels in a 32-bit field, so the round trip holds
  for texts of at most 4 GiB - 1 bytes; a longer text's length is cut to 32
  bits on the wire.
- `wire`: native-byte-order integers and UTF-8 text, the building blocks of
  the wire format.
- `transfer`: the state machines that send and receive a whole message over
  a non-blocking stream.
- `client`, `server`: what the client sends, how the server reads requests,
  answers them, and spreads connections over its workers.
- `idmap`, `executor`, `reactor`, `waker`: the bookkeeping of the executors
  and of the reactor (task ids, tokens, registered wakers and sources).
- `runtime`: runtime configuration.
- `connector`: where the HTTP client connects for a URI, and how.
- `rally`: sets of cloud machines and the spot-instance requests for them.

`app/` is the program around it: sockets, threads, the futures and wakers
that std and the outside crates ask for, and the EC2 calls.
