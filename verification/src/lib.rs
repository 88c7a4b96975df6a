//! Binary UDP wire format and host-independent decision logic of a
//! UDP-to-USB-HID bridge: request parsing, the `PONG` reply, the HID steps a
//! command turns into, and the bounded log ring of the remote-log service.

pub mod protocol;
pub mod dispatch;
pub mod remote_log;
pub mod network;
