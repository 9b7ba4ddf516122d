//! Device identification and command transport for laptop embedded
//! controllers reached through a vendor-specific HID interface.
//!
//! Everything here is pure: the host's HID enumeration, the probe results,
//! the platform model identifier and the bytes read back from the controller
//! are handed in as plain values, and the functions decide what happens next.
pub mod descriptor;
pub mod error;
pub mod frame;
pub mod identify;
pub mod transport;
