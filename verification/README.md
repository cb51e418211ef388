# netlab

A small benchmark that sends a generated payload from a client to a server
over TCP, UDP or QUIC, either streaming or stop-and-wait, and checks the
transfer by comparing SHA-256 hashes.

- `src/` is the verified library (Verus): sizes and their textual form
  (`size`), run settings (`config`, `cli`), packet framing (`packet`), the
  payload with its chunking and hash (`payload`), the receiver's plan and
  state machine (`receiver`), transfer statistics (`stats`), stop-and-wait
  decisions (`transport`), and the account transfer of the thread exercises
  (`account`).
- `app/` is the program around it: command-line parsing, sockets, threads,
  logging and the QUIC plumbing.
- `tests/` runs the library on concrete values.
