//! The verified core of a device gateway: wire framing and the command
//! codec, the registry of devices and their sessions, unified ingress with
//! activity-based liveness, the bounded per-device event store with its
//! subscriber registry and presence colors, and the subscriber channel
//! protocol. The I/O around it — sockets, the serial line, multicast DNS,
//! the duplex endpoint — lives with the binary that embeds this crate.

pub mod alist;
pub mod channel;
pub mod codec;
pub mod color;
pub mod debuglog;
pub mod discovery;
pub mod events;
pub mod framing;
pub mod identity;
pub mod json;
pub mod manager;
pub mod parser;
pub mod session;
pub mod store;
pub mod strutil;
pub mod sys;
pub mod types;
pub mod uart;
