# bore

A TCP tunnel that exposes local ports to a remote server.

`src/` is the library: the framed message stream, the life of a control connection, and what the
command line leads to. It is written in Verus. It does no input or output; a step tells the caller
what to do next, and the caller reports what came of it.

- `shared`: protocol messages and the framed stream
- `framing`: the model of the stream, with its laws
- `session`: the steps of one control connection
- `server`: the server that takes them
- `laws`: what holds of every session and of the waiting connections
- `conversation`: what a client hears in the course of a session
- `service`: what holds of the listener and all its sessions together
- `command`: the command line
- `delimiter`, `registry`, `random`: what is believed of `tokio_util`, `bytes`, `dashmap`,
  `fastrand` and `uuid`, which nothing proves

`app/` is the program around it: sockets, timers, JSON and arguments. `tests/` runs the library on
examples.
