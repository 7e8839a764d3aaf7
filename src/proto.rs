//! Records of the host protocol.
use vstd::prelude::*;

verus! {

/// A device appearing or going away, with its state.
#[derive(Debug)]
pub struct DeviceEvent {
    pub present: bool,
    pub serial: String,
    pub status: String,
}

/// A port forwarded from the host to a device.
#[derive(Debug)]
pub struct ForWardItem {
    pub serial: String,
    pub local: String,
    pub remote: String,
}

/// A port reversed from a device to the host.
#[derive(Debug)]
pub struct ReverseItem {
    pub remote: String,
    pub local: String,
}

} // verus!
