# dropwire

End-to-end encrypted peer-to-peer file transfer: two peers that share a code
phrase such as `7-guitar-abandon` meet at a relay, run SPAKE2 to agree on a
key, and move a file or directory as encrypted, optionally compressed chunks
over parallel TCP streams (directly on a LAN when they find each other there).

## Layout

- `src/` is the library, written and proved with Verus:
  - `types`, `wordlist`: code phrases, channels, safe paths, the word list.
  - `crypto`: key derivation, the PAKE transcript, chunk encryption.
  - `framing`, `codec`: length-prefixed frames and big-endian fields.
  - `net`: chunk frames and stream handshakes, LAN announcements, the
    signaling session as a state machine.
  - `transfer`: chunk layout across files, compression, resume state, and the
    transfer protocol's frames.
  - `relay`: the relay's pairing of TCP streams and its signaling router.
  - `cli`, `tui`: the decisions of the command line and of the terminal
    interface (key maps, the file browser, the config editor).
- `app/` holds what the library leaves to its caller: sockets, files, the
  terminal, argument parsing and JSON. One program serves as `dropwire`, as
  `dropwire-relay` (the relay server) and as `dropwirex` (the terminal
  interface), chosen by the name it is run under.
- `tests/` exercises the library on concrete values.
