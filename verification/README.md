# ez_api

Simple MPSC TCP message queues. A server talks to any number of clients; both sides exchange
messages that a `Codec` turns into bytes and back. Everything that a server receives, from all of
its clients, ends up in one channel.

## Layout

- `src/` is a Verus library. It holds every decision of the protocol as functions from a state and
  an event to the next state and the action to take, with contracts that Verus proves.
  - `read_write`: a message travels behind its length, four bytes in the byte order of the machine.
  - `client`: the client's end, and how it receives messages.
  - `server`: the server's end: accepting, the life of a connection, receiving and sending.
  - `connections`: the table of connected clients.
  - `conversation`, `client::laws`, `server::laws`: what the library promises as a whole, above all
    that what one end sends, the other end receives, in order and complete.
- `app/` is the ordinary Rust around it: sockets, threads and channels. It performs the actions and
  reports how they went.
- `tests/` joins a client and a server by two byte streams in memory.

## Protocol

- Every connection of a server has a clone of the server's codec, with which it receives, and sends
  with a clone of that. A client sends with its codec and receives with a clone of it.
- An empty message from a client cancels the connection: the server still reports it, and then
  closes the connection.
- A message that the codec rejects is reported. The codec says whether the connection goes on.
- A client is offline from the moment at which receiving is decided to end, which is before the
  reason is reported.
- Sending to a client returns when the message has been handed to the socket, or has failed.
- A server that is dropped accepts no more clients and closes all connections.

## What is trusted

- `u32::to_ne_bytes` lays out a number in one of two byte orders; `byte_order.rs` uses this to find
  out which.
- `std::io::Error` is an opaque type that is passed on.
- Nothing is assumed of a `Codec`.
