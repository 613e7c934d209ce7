# dual_ssh

A TCP tunnel that sends every frame over two links at once, so that either
link may drop or reconnect without losing data.

- `src/` is the verified library (Verus): the frame format (`frame`), packet
  numbering (`counter`), duplicate filtering at the receiver (`sequence`),
  the table of tunnelled connections (`table`), what to send for local
  connections (`outbound`), what to do with incoming frames (`relay`), link
  state (`link`) and the command-line types (`arguments`).
- `app/` is the program: argument parsing, sockets, SOCKS5, tasks. It
  performs the I/O and asks the library for every decision.
- `tests/` exercises the library on concrete values.
