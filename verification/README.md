# socket_programming

Small socket programs (a stream client and server, datagram talker and
listener, `poll` and `select` demos, and two multi-client chat servers) whose
decision logic is written and proved in Verus.

- `src/` is the verified library:
  - `poll_server` and `select_server`: the two chat servers as state machines.
    `step` takes the operating system's answer to the last action and returns
    the next action; its contract is a mathematical transition function, and
    proof functions state the servers' invariants and what a relay and a
    hang-up do.
  - `fd_set`: `nix`'s `FdSet` behind trusted wrappers over the set it holds.
  - `poll_flags`, `stdin_wait`: reading `poll`'s event flags; the stdin demos.
  - `stream`: the stream server's accept loop and the decoding of received text.
  - `address`: the `host:port` text handed to the address parser.
- `app/` is the programs themselves: sockets, signals, `fork`, printing. It
  performs the actions the library decides.
- `tests/` runs the library on concrete scenarios.
