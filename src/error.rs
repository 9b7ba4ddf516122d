use vstd::prelude::*;

verus! {

/// Every way in which identification or a command exchange can fail.
#[derive(Clone, Copy, Debug, PartialEq, Eq, Structural)]
pub enum DeviceError {
    /// The host has no way to read a model identifier.
    PlatformUnsupported,
    /// The model identifier could be read but is not usable.
    ModelUnreadable,
    /// The model identifier is not one of the supported laptops.
    ModelNotRecognized,
    /// No HID interface carries the vendor identifier.
    VendorDeviceAbsent,
    /// Interfaces were present, but none opened and accepted the probe.
    SessionOpenFailed,
    /// The operating system failed a write or a read.
    TransportIOFailed,
    /// The read returned a byte count other than one full report.
    ResponseSizeMismatch,
    /// The response checksum does not verify.
    ResponseChecksumInvalid,
    /// The response answers a different command than the one sent.
    ResponseIdentityMismatch,
}

} // verus!
