//! Events of the multi-device layer: a message tagged with the device it
//! came from. The aggregation itself (fan-in over per-device streams and a
//! reference-counted registry) is plain plumbing and lives outside this
//! crate.
use vstd::prelude::*;

use crate::protocol::TuyaMessage;

verus! {

/// A message from one of many managed devices.
#[derive(Debug, Clone)]
pub struct ManagerEvent {
    /// The device the message came from.
    pub device_id: String,
    /// The message itself.
    pub message: TuyaMessage,
}

impl ManagerEvent {
    /// Tag a message with its device.
    pub fn new(device_id: String, message: TuyaMessage) -> (r: ManagerEvent)
        ensures
            r.device_id@ == device_id@,
            r.message@ == message@,
    {
        ManagerEvent { device_id, message }
    }
}

} // verus!
