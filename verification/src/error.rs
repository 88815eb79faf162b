//! Failures of the Bluetooth backend.

use vstd::prelude::*;

verus! {

/// Why an operation of the backend failed.
#[derive(Clone, Copy, Debug, PartialEq, Eq, Structural)]
pub enum MacosBleError {
    PowerOnTimeout,
    RadioTransitionTimeout,
    Closed,
    ControlTooLarge,
    NotifyFailed,
    PublishFailed,
    FrameTooLarge,
    QueueFull,
    DialFailed,
    MissingColumbaIdentity,
    UnsupportedWriteMode,
    InvalidWriteMtu,
    GattWriteFailed,
    GattWriteTimeout,
}

} // verus!
