# blec

A BLE client that keeps several devices connected at once, each under its address, verified
with Verus.

- `src/` is the library. A `Handler` holds the discovered devices, the connections and the
  scan. An operation (connecting, disconnecting, discovering services, scanning, reading,
  writing, subscribing) is a value that is driven step by step: the library either gives the
  result or asks for one action of the adapter, and goes on with the reply. Each step has an
  exact contract over the mathematical model of the handler.
- `src/laws.rs` states what holds of the library as a whole: operations on one device touch no
  other device, each device has its own lock and its own link, a call without an address is for
  the only device that has a connection, changes of whether anything is connected are announced,
  connecting tries at most three times, a disconnection runs the callback of its device, and a
  notification runs the callbacks that are subscribed.
  Listeners change, scans are started and the adapter is initialized one at a time: an operation
  takes a lock in one step and gives it back in a later one, and the handler knows which are held.
- `src/history.rs` states what holds after any history of operations and events: whenever no
  operation is under way, the flag says whether any device is connected, and each link says
  whether its device is. An address keeps its link for ever.
- `app/` runs the operations with btleplug and tokio.
- `tests/` runs the library on concrete values.

`dbus` is a dependency only for its `vendored` feature: btleplug talks to BlueZ through it, and
with the feature it builds on hosts without the D-Bus development files.
