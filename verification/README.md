# localshare

Share a local HTTP server with the internet through a WebSocket relay.

- `src/` is the verified library (Verus): command-line value parsing
  (`cli`), the relay wire protocol and relay addresses (`protocol`), the
  HTTP/1.1 forwarding rules (`forward`), the forwarding of one request
  stream as a state machine (`stream`), the tunnel client's decisions —
  registration, reconnects, heartbeats, dispatch, request reporting
  (`client`) — and the terminal rendering of banners, request logs, error
  views and QR codes (`ui`). `text` and `time` hold the string and duration
  helpers these share.
- `app/` is the program around it: `clap` argument parsing, the JSON wire
  form (`serde`), the WebSocket and TCP sockets, tasks and timers (`tokio`),
  the randomised back-off delay, logging and printing.
- `tests/` runs the library on concrete values.

The outside crates the library calls (`url`, `httparse`, `qrcode`) are
reached through a few trusted wrappers whose contracts name what the call
returns.
