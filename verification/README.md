# rtipc_zbus

Request/response messaging between two processes over
[rtipc](https://crates.io/crates/rtipc) channels in shared memory. The client
describes its channels to the server over D-Bus; afterwards commands, responses
and events travel through the channels alone.

- `src/` is the verified library: configurations and their D-Bus form
  (`config`), the request to connect (`connect`), the messages (`message`), the
  server (`server`), the client (`client`), and what is known of the rtipc
  channels (`channel`).
- `app/` is the program around it: `server` and `client` on the session bus.
- `tests/` runs both ends of a connection within one process.
