# p2p_chat

A peer-to-peer chat without a server, with its core verified in Verus.

- `src/` — the verified library:
  - `frame` length-prefixed frames (big-endian on the stream, little-endian
    for packets) with the 10 MiB limit;
  - `message`, `net` — the two wire protocols, connection tokens, connection
    states and receive buffers;
  - `registry` — known peers, address normalisation, start-up peer arguments;
  - `node` — what the console node does for each command and each message;
  - `console`, `tui` — the two terminal interfaces: key handling, command
    language, what is shown;
  - `api`, `app`, `history` — the command/notification application: peers,
    packets, commands, chat history;
  - `crypto`, `storage` — password hashing, key derivation, encrypted history,
    the on-disk layout;
  - `text`, `order`, `clock`, `event` — shared text, ordering, time and event
    definitions.
- `tests/` — tests of the library on concrete values.
- `app/` — the program: terminal drawing, sockets, files, and the loops that
  carry out what the library decides. `--api` runs the application mode,
  `--password` adds an account with encrypted history.
