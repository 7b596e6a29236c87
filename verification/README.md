# dovepipe

Sending a file over UDP in numbered chunks of 500 bytes. The receiver asks for
the size of the file, records one bit per chunk that arrives, and when the
sender says it is done, lists up to 63 chunks that are still missing; the
sender sends those again until the receiver confirms the whole file.

Layout:

- `src/` is the verified library (Verus): the wire format (`wire`, `bytes`),
  the bits of a progress byte (`bits`), progress tracking (`tracker`), and the
  decisions of each peer as a step function from state and event to next state
  and action (`reciever`, `sender`). `exchange` proves how the two peers'
  messages meet.
- `app/` runs the two peers with tokio: sockets, timers, the output file and a
  file-backed tracker. It performs each action the library returns and feeds
  back what happened.
- `tests/` holds the tests, among them whole transfers over a lossy in-memory
  link.

A progress tracker takes one bit per chunk: file size / 500 / 8 bytes, so
16 MB for a 64 GB file.
