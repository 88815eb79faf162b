//! GATT writes of a central-role session.

use crate::error::MacosBleError;
use vstd::prelude::*;

verus! {

/// Whether the peer acknowledges a write.
#[derive(Clone, Copy, Debug, PartialEq, Eq, Structural)]
pub enum GattWriteMode {
    WithResponse,
    WithoutResponse,
}

/// How a write is answered.
#[derive(Clone, Copy, Debug, PartialEq, Eq, Structural)]
pub enum GattWriteAdmission {
    Issue,
    WaitForCapacity,
    Busy,
}

/// How a write is answered: one acknowledged write is outstanding at a time, and one
/// unacknowledged write waits for capacity at a time.
pub open spec fn admission(
    mode: GattWriteMode,
    acknowledged_pending: bool,
    unacknowledged_pending: bool,
    can_send_without_response: bool,
) -> GattWriteAdmission {
    match mode {
        GattWriteMode::WithResponse => if acknowledged_pending {
            GattWriteAdmission::Busy
        } else {
            GattWriteAdmission::Issue
        },
        GattWriteMode::WithoutResponse => if unacknowledged_pending {
            GattWriteAdmission::Busy
        } else if can_send_without_response {
            GattWriteAdmission::Issue
        } else {
            GattWriteAdmission::WaitForCapacity
        },
    }
}

/// Answers a write.
pub fn write_admission(
    mode: GattWriteMode,
    acknowledged_pending: bool,
    unacknowledged_pending: bool,
    can_send_without_response: bool,
) -> (r: GattWriteAdmission)
    ensures
        r == admission(
            mode,
            acknowledged_pending,
            unacknowledged_pending,
            can_send_without_response,
        ),
{
    match mode {
        GattWriteMode::WithResponse => if acknowledged_pending {
            GattWriteAdmission::Busy
        } else {
            GattWriteAdmission::Issue
        },
        GattWriteMode::WithoutResponse => if unacknowledged_pending {
            GattWriteAdmission::Busy
        } else if can_send_without_response {
            GattWriteAdmission::Issue
        } else {
            GattWriteAdmission::WaitForCapacity
        },
    }
}

/// The bytes in front of a fragment's payload.
pub const FRAGMENT_HEADER_LEN: usize = 5;

/// The most bytes that a written fragment has.
pub const MAX_FRAGMENT_MTU: usize = 180;

/// Which writes a characteristic takes.
#[derive(Clone, Copy, Debug, PartialEq, Eq, Structural)]
pub struct WriteProperties {
    pub write: bool,
    pub write_without_response: bool,
}

impl WriteProperties {
    /// The characteristic takes writes in the mode.
    pub open spec fn supports(self, mode: GattWriteMode) -> bool {
        match mode {
            GattWriteMode::WithResponse => self.write,
            GattWriteMode::WithoutResponse => self.write_without_response,
        }
    }
}

/// How fragments are written to a characteristic.
#[derive(Clone, Copy, Debug, PartialEq, Eq, Structural)]
pub struct GattWritePlan {
    mode: GattWriteMode,
    fragment_mtu: usize,
}

/// The largest fragment that goes out in one write, whichever mode carries it.
pub open spec fn atomic_mtu(maximum_with_response: usize, maximum_without_response: usize) -> usize {
    let smaller = if maximum_with_response <= maximum_without_response {
        maximum_with_response
    } else {
        maximum_without_response
    };
    if smaller <= MAX_FRAGMENT_MTU {
        smaller
    } else {
        MAX_FRAGMENT_MTU
    }
}

impl GattWritePlan {
    /// The mode of the writes.
    pub closed spec fn planned_mode(self) -> GattWriteMode {
        self.mode
    }

    /// The most bytes of one write.
    pub closed spec fn planned_mtu(self) -> usize {
        self.fragment_mtu
    }

    /// How fragments are written in the mode, where the characteristic takes such writes and a
    /// fragment with its header fits into one of them.
    pub fn from_discovery(
        mode: GattWriteMode,
        properties: WriteProperties,
        maximum_with_response: usize,
        maximum_without_response: usize,
    ) -> (r: Result<Self, MacosBleError>)
        ensures
            ({
                let mtu = atomic_mtu(maximum_with_response, maximum_without_response);
                match r {
                    Ok(plan) => {
                        &&& properties.supports(mode) && mtu > FRAGMENT_HEADER_LEN
                        &&& plan.planned_mode() == mode
                        &&& plan.planned_mtu() == mtu
                    },
                    Err(error) => if properties.supports(mode) {
                        error == MacosBleError::InvalidWriteMtu && mtu <= FRAGMENT_HEADER_LEN
                    } else {
                        error == MacosBleError::UnsupportedWriteMode
                    },
                }
            }),
    {
        let supported = match mode {
            GattWriteMode::WithResponse => properties.write,
            GattWriteMode::WithoutResponse => properties.write_without_response,
        };
        if !supported {
            return Err(MacosBleError::UnsupportedWriteMode);
        }
        let smaller: usize = if maximum_with_response <= maximum_without_response {
            maximum_with_response
        } else {
            maximum_without_response
        };
        let fragment_mtu: usize = if smaller <= MAX_FRAGMENT_MTU {
            smaller
        } else {
            MAX_FRAGMENT_MTU
        };
        if fragment_mtu <= FRAGMENT_HEADER_LEN {
            return Err(MacosBleError::InvalidWriteMtu);
        }
        Ok(GattWritePlan { mode, fragment_mtu })
    }

    /// The mode of the writes.
    pub fn mode(&self) -> (r: GattWriteMode)
        ensures
            r == self.planned_mode(),
    {
        self.mode
    }

    /// The most bytes of one write.
    pub fn fragment_mtu(&self) -> (r: usize)
        ensures
            r == self.planned_mtu(),
    {
        self.fragment_mtu
    }
}

/// A characteristic that a session writes its fragments to.
pub struct GattWriteTarget<K> {
    pub characteristic: K,
    pub plan: GattWritePlan,
}

/// A write that somebody waits for at `reply`.
pub struct GattWriteRequest<K, T> {
    pub characteristic: K,
    pub mode: GattWriteMode,
    pub bytes: Vec<u8>,
    pub reply: T,
}

/// A write that was issued and that the peer has not acknowledged.
pub struct PendingAcknowledgedWrite<K, T> {
    pub characteristic: K,
    pub reply: T,
}

} // verus!
