use vstd::prelude::*;

verus! {

/// The device commands of the command line.
pub enum DeviceCmd {
    /// Register a new device.
    Add { id: String, mac: String, broadcast_addr: String, ip: String },
    /// Show a device.
    Get { id: String },
    /// Change a device.
    Edit { id: String, mac: String, broadcast_addr: String, ip: String },
}

} // verus!
