# mcproxy

Play Minecraft LAN games over the internet through a relay server: the host's
LAN game is tunnelled over a WebSocket to guests in the same room, where it is
announced on their LAN again.

The logic is a Verus-verified library under `src/`:

- `relay` — the relay server's rooms and peers and what every client message
  does to them and sends to whom; `relay_laws` proves properties that hold
  across its operations. The server's tables are dashmap `DashMap`s and its ids
  come from uuid, behind the trusted contracts in `tables`.
- `client` — the proxy client's state machine: each event from the server, the
  LAN scan, the tunnel or the user gives the next state and the actions for the
  runtime; `client_laws` proves its properties.
- `protocol`, `events` — the messages and events, with their models.
- `frame` — binary frames for tunnelled game bytes.
- `lan` — reading and writing LAN game announcements.
- `debug_http` — the client's local debug API: request line, headers, routes,
  replies.
- `text` — trimming, searching, decimal parsing and formatting.

`app/` is the program around it: the relay server's WebSocket loop
(`mcproxy server`) and a headless client runtime steered through its debug API
(`mcproxy client`), with the JSON encodings.

There is no desktop window: Tauri needs the GTK 3 and WebKitGTK system
libraries, so it is not a dependency, and the client's commands and events are
reached through the debug API instead.
