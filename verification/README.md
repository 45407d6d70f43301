# channels

Client-side logic for IOTA Streams channels, verified with Verus.

- `src/link.rs`: turning a channel address and a message identifier into a
  link, or into the error that names both.
- `src/reception.rs`: the state machine a subscriber follows while it fetches
  the messages at a link, checks each header's content type and unwraps each
  message; with its laws (when a reception succeeds, how it fails, and that
  nothing is unwrapped before its header is checked).
- `src/seed.rs`: random author seeds of 30 ASCII letters and digits.
- `src/payload.rs`: the payloads of signed packets and the JSON greeting an
  author publishes.
- `src/author.rs`: whether an author starts a new channel or resumes one.
- `app/`: the command-line programs, which talk to the IOTA network through
  `iota-streams` and drive the library.
