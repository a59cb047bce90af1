use vstd::prelude::*;

verus! {

/// Every failure that crosses the library's boundary.
#[derive(Clone, Copy, Debug, PartialEq, Eq, Structural)]
pub enum HSLinkError {
    /// No matching device is present, or the opened device is not the one asked for.
    DeviceNotFound,
    /// No session is open, or the device could not be opened.
    DeviceNotOpened,
    /// The device rejected a write.
    WriteErr,
    /// Reading a response failed or timed out.
    ReadErr,
    /// The response did not carry the inbound report id.
    RspErr,
    /// Reserved for capability checks.
    NotSupport,
    /// The payload does not fit into one report frame.
    PayloadTooLong,
    /// The response payload is not valid UTF-8.
    DecodeErr,
}

} // verus!
