# signaling

A signaling server for WebRTC. Every client holds one websocket; chat messages
are relayed to all other clients, and the server negotiates one peer connection
with each client: it answers offers, takes candidates and announces its own.

- `src/` is the library: what the server decides, verified with Verus.
  - `clients`: the registered clients.
  - `json`: JSON objects. `serde_json` reads them and quotes strings; the rest of
    an object is written by the library.
  - `message`: the messages of the protocol.
  - `peer`: ICE servers, session descriptions and local candidates.
  - `session`: one connection as a state machine.
  - `forward`: sending a client what is on its channel.
  - `track`: reading a remote track.
  - `laws`, `history`: what holds of every step and of every connection.
- `app/` is the server around it: sockets, channels, peer connections, the log.
- `tests/` runs the library.
