//! Reconciling what the radio does with what is wanted of it.

use vstd::prelude::*;

verus! {

/// Sightings that wait for the host, for each peer that it admits.
pub const SIGHTING_INGRESS_PER_PEER: usize = 4;

/// Peripherals that the central role keeps track of.
pub fn central_peripheral_capacity(max_peers: usize) -> (r: usize)
    ensures
        r == if max_peers * SIGHTING_INGRESS_PER_PEER <= usize::MAX {
            max_peers * SIGHTING_INGRESS_PER_PEER
        } else {
            usize::MAX as int
        },
{
    match max_peers.checked_mul(SIGHTING_INGRESS_PER_PEER) {
        Some(capacity) => capacity,
        None => usize::MAX,
    }
}

/// What the liveness deadline of a scan finds.
#[derive(Clone, Copy, Debug, PartialEq, Eq, Structural)]
pub enum ScanLease {
    Inactive,
    Renewed,
    Expired,
}

/// Any discovery callback renews the lease of an enabled scan; one that saw none has expired.
pub fn scan_lease(enabled: bool, activity_observed: bool) -> (r: ScanLease)
    ensures
        r == ScanLease::Inactive <==> !enabled,
        r == ScanLease::Renewed <==> enabled && activity_observed,
        r == ScanLease::Expired <==> enabled && !activity_observed,
{
    match (enabled, activity_observed) {
        (false, _) => ScanLease::Inactive,
        (true, true) => ScanLease::Renewed,
        (true, false) => ScanLease::Expired,
    }
}

/// What is asked of the scanner.
#[derive(Clone, Copy, Debug, PartialEq, Eq, Structural)]
pub enum ScanOp {
    Start,
    Restart,
    Stop,
    Keep,
}

impl ScanOp {
    /// The scanner runs once it did what was asked.
    pub open spec fn leaves_scanning(self, is_scanning: bool) -> bool {
        match self {
            ScanOp::Start => true,
            ScanOp::Restart => true,
            ScanOp::Stop => false,
            ScanOp::Keep => is_scanning,
        }
    }

    /// The scanner is interrupted on the way.
    pub open spec fn interrupts(self, is_scanning: bool) -> bool {
        is_scanning && self is Restart
    }
}

/// What is asked of the scanner: it runs afterwards exactly where it is enabled, a running one is
/// interrupted only for a wanted restart, and nothing is asked that would change nothing.
pub fn scan_op(enabled: bool, is_scanning: bool, restart: bool) -> (r: ScanOp)
    ensures
        r.leaves_scanning(is_scanning) == enabled,
        r.interrupts(is_scanning) == (enabled && is_scanning && restart),
        r == ScanOp::Keep <==> enabled == is_scanning && !(enabled && restart),
        r == ScanOp::Start <==> enabled && !is_scanning,
        r == ScanOp::Restart <==> enabled && is_scanning && restart,
        r == ScanOp::Stop <==> !enabled && is_scanning,
{
    if enabled {
        if is_scanning {
            if restart {
                ScanOp::Restart
            } else {
                ScanOp::Keep
            }
        } else {
            ScanOp::Start
        }
    } else if is_scanning {
        ScanOp::Stop
    } else {
        ScanOp::Keep
    }
}

/// What is asked of the advertiser.
#[derive(Clone, Copy, Debug, PartialEq, Eq, Structural)]
pub enum AdvertisingOp {
    Start,
    Stop,
    Keep,
}

impl AdvertisingOp {
    /// The advertiser runs once it did what was asked.
    pub open spec fn leaves_advertising(self, is_advertising: bool) -> bool {
        match self {
            AdvertisingOp::Start => true,
            AdvertisingOp::Stop => false,
            AdvertisingOp::Keep => is_advertising,
        }
    }
}

/// What is asked of the advertiser: it runs afterwards exactly where it is enabled, and a healthy
/// advertisement is never bounced.
pub fn advertising_op(enabled: bool, is_advertising: bool) -> (r: AdvertisingOp)
    ensures
        r.leaves_advertising(is_advertising) == enabled,
        r == AdvertisingOp::Keep <==> enabled == is_advertising,
        r == AdvertisingOp::Start <==> enabled && !is_advertising,
        r == AdvertisingOp::Stop <==> !enabled && is_advertising,
{
    match (enabled, is_advertising) {
        (true, false) => AdvertisingOp::Start,
        (false, true) => AdvertisingOp::Stop,
        _ => AdvertisingOp::Keep,
    }
}

/// What is asked of the scanner once a request for it is carried out. A scan that was enabled
/// before the radio was switched off is not started after all.
pub fn scanning_step(enabled: bool, radio_enabled: bool, is_scanning: bool, restart: bool) -> (r:
    ScanOp)
    ensures
        enabled && !radio_enabled ==> r == ScanOp::Keep,
        !(enabled && !radio_enabled) ==> r.leaves_scanning(is_scanning) == enabled,
        r.interrupts(is_scanning) == (enabled && radio_enabled && is_scanning && restart),
        r == ScanOp::Start <==> enabled && radio_enabled && !is_scanning,
        r == ScanOp::Stop <==> !enabled && is_scanning,
{
    if enabled && !radio_enabled {
        return ScanOp::Keep;
    }
    scan_op(enabled, is_scanning, restart)
}

/// What is asked of the advertiser once a request for it is carried out, where `is_advertising` is
/// what its manager says and nothing while there is no manager. Advertising that was enabled
/// before the radio was switched off is not started after all.
pub fn advertising_step(enabled: bool, radio_enabled: bool, is_advertising: Option<bool>) -> (r:
    AdvertisingOp)
    ensures
        r == AdvertisingOp::Start <==> enabled && radio_enabled && is_advertising == Some(false),
        r == AdvertisingOp::Stop <==> !enabled && is_advertising == Some(true),
{
    if enabled && !radio_enabled {
        return AdvertisingOp::Keep;
    }
    match is_advertising {
        Some(is_advertising) => advertising_op(enabled, is_advertising),
        None => AdvertisingOp::Keep,
    }
}

} // verus!
