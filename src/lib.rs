//! Host-side client for a device-bridge server: command framing, status
//! handshake, response decoding, device listing and target selection.
//!
//! Everything here works on plain values; the sockets and the server
//! process are driven by the caller, which hands the bytes it read to the
//! functions of this crate and sends the bytes they produce.
use vstd::prelude::*;

pub mod connect;
pub mod device;
pub mod error;
pub mod frame;
pub mod host;
pub mod proto;
pub mod reader;
pub mod selector;
pub mod server;
pub mod text;

use crate::error::AdbError;

verus! {

/// A host command answered by one complete response.
pub trait SyncHostCommand {
    fn execute(&mut self) -> Result<SyncHostResponse, AdbError>;
}

/// A complete response: its byte length and its text.
#[derive(Debug)]
pub struct SyncHostResponse {
    pub length: usize,
    pub content: String,
}

} // verus!
