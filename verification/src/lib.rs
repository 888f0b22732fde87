//! Local-network client library for Tuya-compatible smart devices.
//!
//! The crate covers the three core subsystems of the LAN protocol
//! (versions 3.1 through 3.5):
//!
//! - the wire codec: framing for the `0x55AA` and `0x6699` formats,
//!   CRC32 / HMAC-SHA256 integrity, AES-128 ECB and GCM payloads;
//! - the per-device session logic: sequence numbers, session-key
//!   negotiation, payload construction, reconnection backoff;
//! - the discovery service: UDP broadcast parsing and the shared
//!   discovery cache with single-flight scanning.
//!
//! Network I/O and task scheduling live outside this crate; everything
//! here is a function from plain values to plain values with a contract.
pub mod encoding;
pub mod error;
pub mod crypto;
pub mod protocol;
pub mod device;
pub mod scanner;
pub mod manager;

