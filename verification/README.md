# openscq30

The logic behind picking a pair of Soundcore headphones and talking to it over RFCOMM, written in
Rust and verified with Verus.

- `src/device_selection.rs`: the screen on which a paired device is picked, from messages to actions
  and from state to rows.
- `src/rfcomm.rs`: what to ask of the IOBluetooth shim, what its answers mean, and what its
  callbacks do.
- `src/services.rs`, `src/devices.rs`: the services of a device, and the devices of the adapter.
- `src/platform.rs`: the backends of macOS, and work that runs beside the main run loop.
- `src/channels.rs`, `src/text.rs`: the calls into `tokio` and the standard library that are trusted
  rather than proved. `src/mac_address.rs` and `src/services.rs` hold one more each, into `macaddr`
  and `uuid`.
- `app/`: the shim's foreign functions, threads and widgets around the library. The widgets need
  `libcosmic`, which is not published on crates.io.
