# data_visualizer

The server of a data visualizer for a trading simulation: traders post their
actions and holdings, markets post their goods, and browsers follow them as
event streams.

- `src/` is the verified library: the day counter, the caches that clients
  who connect late replay, the routing of market names, the ordering of
  posted goods by name, the stamping of events with their day, and the
  decisions of the streams. Records are generic in their number type `N`;
  the server uses `f32`.
- `tests/` exercises the library on concrete values.
- `app/` is the Rocket server: routes, channels, HTTP clients, serde forms
  of the records and the floating-point arithmetic.
