# esp32_rust_c_hid_example

Firmware logic of an ESP32-S3 UDP-to-USB-HID bridge, verified with Verus.

- `src/protocol.rs` — the binary UDP wire format: `parse` of request
  datagrams and `write_pong`, proved against a spec of the opcode table, with
  the format's laws (encode/parse round trip, trailing bytes ignored, a `PONG`
  is never taken for a request, the `PONG` echoes the `PING`'s sequence).
- `src/dispatch.rs` — what the firmware does with a datagram, and the HID
  steps (press / hold / release) each command becomes, and `next_step`,
  which stops a command at its first failed HID call.
- `src/remote_log.rs` — the FIFO-truncated log ring of the remote-log
  service, line clipping, and its set-up decisions (hook and server started
  once, first port sticks).
- `src/network.rs` — Wi-Fi authentication choice and the mDNS host name.
- `app/` — the firmware program itself: ESP-IDF set-up, Wi-Fi, sockets, the
  TinyUSB FFI and the logging hook, performing what the library decides.
