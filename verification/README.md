# srad

A Sparkplug B edge node and application framework. The message handling,
sequencing and state decisions are written in Verus and proved against their
contracts; the network client, protobuf encoding and async runtimes are
ordinary Rust around them.

## Layout

- `src/` — the verified library.
  - `types.rs` — payloads, metrics, data types, topics and names.
  - `client.rs` — reading a received publish as an event; topic read-back laws.
  - `mqtt.rs` — MQTT options and the connection state an event loop reports.
  - `app/` — the application side: payload validation (`events`, `metrics`),
    message reordering (`resequencer`), per node state and rebirth decisions
    (`generic_app`), the application over all nodes (`application`) and its
    event loop state (`eventloop`).
  - `eon/` — the edge node side: birth messages and aliases (`birth`),
    publishing (`metric`), the node's session state and commands (`node`),
    devices (`device`, `registry`) and metric managers (`manager`, `simple`,
    `value`).
  - `strings.rs` — byte and string helpers over std.
- `tests/` — tests of the library through its public interface.
- `app/` — the runtime: protobuf messages and conversions (prost), the
  rumqttc client and event loop, an in-process channel client, and the async
  edge node and application loops that carry out what the library decides.

Times are milliseconds since the Unix epoch, handed to the library by the
runtime.
