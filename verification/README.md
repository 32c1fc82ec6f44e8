# lan_iot_hub

The LanIoT Hub: one device surface over Home Assistant, in-memory faker stubs,
Companion listeners (PC / phone / robot / chip) and scenes, with a REST,
WebSocket and MCP (JSON-RPC) front.

- `src/` is the verified library: the device registry and its capability
  model, brand inference, the faker stubs, routing between backends and
  degradation to stubs, the scene-run state machine (`scene::SceneRun`),
  Companion and LAN identity parsing, pairing tokens and the request guard,
  the Agent retry protocol, the HA WebSocket session and sync schedule, and
  the response bodies.
  Each is an executable function with a contract proved by Verus.
  `src/laws.rs` states the properties that span several operations.
- `app/` is the service around it: configuration files and environment,
  MongoDB, HTTP and WebSocket I/O, and the async loops that perform what the
  library decides (for a scene run, the app asks `SceneRun::next` what to do
  and reports each outcome back; the Home Assistant sync follows
  `ha::HaSyncSchedule` in the same way).
- `tests/` runs the library on concrete values.
