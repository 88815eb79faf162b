# bluetooth-auto

The decisions of a Bluetooth LE auto-interface, written in Verus: which peers are registered, who may
dial whom, when a session begins and ends, what is buffered for a restored connection, what is asked
of the radio, and how a supervisor goes on after a failure. Every function states what it does in
`requires` and `ensures` clauses; properties that span functions stand as `law_...` proof functions.

- `src/` is the library. It holds no handle of an operating system: peripherals, characteristics and
  control messages are type parameters, and times are milliseconds that the caller reads from a
  clock. Each event is a method that changes the state and returns what is left to do.
- `app/` performs what the library asks for. `app/apple` drives CoreBluetooth and builds on Apple
  systems; the rest runs anywhere.
- `tests/` runs the library on concrete values.

| Role | Modules |
| --- | --- |
| Peers | `peer`, `peer_map`, `search`, `recent_set` |
| Central role | `registry_model`, `registry`, `registry_laws`, `restored`, `session`, `central`, `central_events` |
| Peripheral role | `pending`, `peripheral`, `peripheral_events` |
| Radio | `radio`, `discovery`, `dial`, `gatt_write`, `budget`, `profile` |
| Startup and supervision | `signals`, `restoration`, `backend`, `host`, `error` |
| Channels | `ingress` |
| Node | `inspection`, `announce` |
