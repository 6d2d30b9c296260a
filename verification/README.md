# viper

A live picture of tracked objects — aircraft (ADS-B), vessels (AIS), heat spots (NASA
FIRMS) and satellites (CelesTrak) — kept in an engine that serves snapshots over REST and
streams batches of changes over a WebSocket.

- `src/` is the verified library (Verus): the engine and its store (a `DashMap` and a
  `DashSet`, used with exclusive access: the service holds the engine behind one lock, so
  updates and ticks never interleave), what each feed's records become, the configuration rules, the text handling they share, and the
  decisions of the socket loops. Floating-point readings travel through it as bit
  patterns.
- `app/` is the service around it: the async runtime, HTTP, WebSocket, Redis, serde
  formats and float conversions, and the loops that wait on the network.
- `tests/` exercises the library on concrete values.
