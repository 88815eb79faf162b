//! What the backend remembers between its events, and what each event makes of it.

use crate::central::CentralState;
use crate::discovery::{GuardModel, StaleLinkRecovery};
use crate::error::MacosBleError;
use crate::peer::{BleAddress, CoreBluetoothPeerId, Sighting};
use crate::radio::{
    central_peripheral_capacity, scan_lease, ScanLease, SIGHTING_INGRESS_PER_PEER,
};
use crate::recent_set;
use crate::recent_set::BoundedRecentSet;
use crate::registry_model::{CentralDialCandidate, RegistryModel};
use crate::restoration;
use crate::restoration::{legacy_restoration_identifiers, CoreBluetoothRestorationIdentifiers};
use crate::session::{CentralPeerSession, DialChars, DialCompletion};
use crate::signals::{manager_readiness, ManagerSignals};
use vstd::laws_eq;
use vstd::prelude::*;

verus! {

/// How long the managers have to become ready, in milliseconds.
pub const POWER_ON_TIMEOUT_MS: u64 = 10_000;

/// How long a dial has to reach its control characteristic, in milliseconds.
pub const DIAL_TIMEOUT_MS: u64 = 15_000;

/// How long a radio transition has to complete, in milliseconds.
pub const RADIO_TRANSITION_TIMEOUT_MS: u64 = 2_000;

/// Maximum recovery latency for a CoreBluetooth scan that claims to be active but has stopped
/// delivering callbacks, in milliseconds. Any discovery callback renews the scan lease without
/// touching the radio.
pub const RADIO_LIVENESS_INTERVAL_MS: u64 = 60_000;

/// The Apple platform that the backend runs on.
#[derive(Clone, Copy, Debug, PartialEq, Eq, Structural)]
pub enum ApplePlatform {
    Macos,
    Ios,
}

impl ApplePlatform {
    /// Peers that a backend on the platform has at most.
    pub open spec fn spec_max_peers(self) -> usize {
        match self {
            ApplePlatform::Macos => 8,
            ApplePlatform::Ios => 7,
        }
    }

    /// Peers that a backend on the platform has at most.
    pub fn max_peers(self) -> (r: usize)
        ensures
            r == self.spec_max_peers(),
    {
        match self {
            ApplePlatform::Macos => 8,
            ApplePlatform::Ios => 7,
        }
    }
}

/// The central role of a backend on the platform. It keeps track of a few peripherals for each peer
/// that the backend may have, and stale links are recovered on macOS alone.
pub fn central_state<P, C, K, D, T>(platform: ApplePlatform, callback_budget: usize) -> (r:
    CentralState<P, C, K, D, T>)
    ensures
        r.wf(),
        r@.recovery is Enabled <==> platform is Macos,
        r@.registry == RegistryModel::<P, C>::empty(
            (platform.spec_max_peers() * SIGHTING_INGRESS_PER_PEER) as nat,
            platform.spec_max_peers() as nat,
            callback_budget as nat,
        ),
        r@.sessions == Map::<CoreBluetoothPeerId, CentralPeerSession<C, K, D, T>>::empty(),
        r@.guard == GuardModel::empty(),
{
    let recovery = match platform {
        ApplePlatform::Macos => StaleLinkRecovery::Enabled,
        ApplePlatform::Ios => StaleLinkRecovery::Disabled,
    };
    CentralState::new(
        recovery,
        central_peripheral_capacity(platform.max_peers()),
        platform.max_peers(),
        callback_budget,
    )
}

/// How the CoreBluetooth managers are created.
#[derive(Debug, PartialEq, Eq)]
pub enum ManagerPreparation {
    /// With restoration, under these identifiers.
    RestorationAware(CoreBluetoothRestorationIdentifiers),
    /// As the platform does it, which knows no restoration.
    PlatformDefault,
    /// Without restoration.
    WithoutRestoration,
}

impl ManagerPreparation {
    /// How the managers are created where the application says nothing: under built-in identifiers
    /// where the platform restores managers, and as the platform does it elsewhere.
    pub fn platform_default(platform: ApplePlatform) -> (r: Self)
        ensures
            match platform {
                ApplePlatform::Ios => r matches ManagerPreparation::RestorationAware(identifiers)
                    && identifiers@ == restoration::unnamed_model(),
                ApplePlatform::Macos => r is PlatformDefault,
            },
    {
        match platform {
            ApplePlatform::Ios => ManagerPreparation::RestorationAware(
                legacy_restoration_identifiers(),
            ),
            ApplePlatform::Macos => ManagerPreparation::PlatformDefault,
        }
    }

    /// The identifiers under which the managers are restored.
    pub fn restoration_identifiers(&self) -> (r: Option<&CoreBluetoothRestorationIdentifiers>)
        ensures
            match *self {
                ManagerPreparation::RestorationAware(identifiers) => r == Some(&identifiers),
                _ => r is None,
            },
    {
        match self {
            ManagerPreparation::RestorationAware(identifiers) => Some(identifiers),
            _ => None,
        }
    }
}

/// How a link came about.
#[derive(Clone, Copy, Debug, PartialEq, Eq, Structural)]
pub enum Origin {
    /// This host dialed the peer.
    Dialed,
    /// The peer dialed this host.
    Inbound,
}

/// Something that happened to the backend.
pub enum BleEvent<L> {
    /// A peer was seen.
    Sighting { address: BleAddress, rssi: Option<i8> },
    /// A dial did not lead to a link.
    DialFailed { address: BleAddress },
    /// A peer dialed this host.
    Inbound(L),
    /// A dial led to a link.
    LinkReady { link: L, origin: Origin, peer_rssi: Option<i8> },
}

/// How a dial task ended.
pub enum DialTaskOutcome<L> {
    Ready { link: L, peer_rssi: Option<i8> },
    Failed { address: BleAddress },
}

/// What woke the backend.
pub enum BackendWake<L> {
    /// The managers reported something: the generation that the central is powered in, or nothing
    /// where nobody will report any more.
    ManagerSignals(Option<u64>),
    /// A peer dialed this host, or nothing where nobody will any more.
    Inbound(Option<L>),
    /// A dial task ended, or nothing where it was aborted.
    Dial(Option<DialTaskOutcome<L>>),
    /// A sighting may wait: the next one where one did.
    Sighted(Option<Sighting>),
    /// Nobody will see a peer any more.
    SightingsClosed,
    /// The scan lease ran out; discovery was active since the last time or not.
    ScanLiveness { activity: bool },
    /// Advertising is to be reconciled.
    AdvertisingReconcile,
}

/// What the backend does next.
pub enum BackendStep<L> {
    /// Hand the event to the host.
    Return(BleEvent<L>),
    /// Wait for the next wake.
    Continue,
    /// Restart the scan, then wait for the next wake.
    RestartScan,
    /// Ask for advertising, then wait for the next wake.
    ReconcileAdvertising,
    /// Nothing happens any more.
    Pending,
}

/// How a dial request is answered.
#[derive(Clone, Copy, Debug, PartialEq, Eq, Structural)]
pub enum DialOutcome {
    RadioOff,
    Started,
}

/// A dial that goes ahead.
pub struct DialTarget<P> {
    pub peer_id: CoreBluetoothPeerId,
    pub peripheral: P,
    pub rssi: Option<i8>,
    pub restored: bool,
}

/// How a radio transition ended.
#[derive(Clone, Copy, Debug, PartialEq, Eq, Structural)]
pub enum TransitionOutcome {
    Completed,
    Closed,
    TimedOut,
}

/// The wakes that the backend waits for.
#[derive(Clone, Copy, Debug, PartialEq, Eq, Structural)]
pub struct ArmedWakes {
    pub manager_signals: bool,
    pub dials: bool,
    pub scan_liveness: bool,
    pub advertising_reconcile: bool,
}

/// What a [`MacosBleBackend`] remembers.
pub struct BackendModel<S> {
    pub platform: ApplePlatform,
    pub psm: S,
    pub manager_signals_open: bool,
    pub central_powered_generation: u64,
    pub seen: Seq<BleAddress>,
    pub dial_failures: Seq<BleAddress>,
    pub scan_enabled: bool,
    pub advertise_enabled: bool,
    pub scan_liveness_at: u64,
    pub advertising_reconcile_at: u64,
}

/// The time one liveness interval from now.
pub open spec fn next_deadline(now: u64) -> u64 {
    if now + RADIO_LIVENESS_INTERVAL_MS <= u64::MAX {
        (now + RADIO_LIVENESS_INTERVAL_MS) as u64
    } else {
        u64::MAX
    }
}

impl<S> BackendModel<S> {
    /// A backend whose managers have just become ready.
    pub open spec fn ready(platform: ApplePlatform, psm: S, generation: u64, now: u64) -> Self {
        BackendModel {
            platform,
            psm,
            manager_signals_open: true,
            central_powered_generation: generation,
            seen: Seq::empty(),
            dial_failures: Seq::empty(),
            scan_enabled: false,
            advertise_enabled: false,
            scan_liveness_at: next_deadline(now),
            advertising_reconcile_at: next_deadline(now),
        }
    }

    /// Addresses that either history holds at most.
    pub open spec fn history(self) -> nat {
        (self.platform.spec_max_peers() * SIGHTING_INGRESS_PER_PEER) as nat
    }

    /// The backend with its local radio state cleared.
    pub open spec fn cleared(self, now: u64) -> Self {
        BackendModel {
            seen: Seq::empty(),
            dial_failures: Seq::empty(),
            scan_liveness_at: next_deadline(now),
            advertising_reconcile_at: next_deadline(now),
            ..self
        }
    }

    /// The backend while a radio transition is under way.
    pub open spec fn in_transition(self, enabled: bool, now: u64) -> Self {
        if enabled {
            self
        } else {
            BackendModel { scan_enabled: false, advertise_enabled: false, ..self.cleared(now) }
        }
    }

    /// The scan is restarted after the managers reported the generation.
    pub open spec fn rescans(self, generation: u64) -> bool {
        generation != self.central_powered_generation && self.scan_enabled
    }

    /// The backend with the failed dial remembered.
    pub open spec fn with_failure(self, address: BleAddress) -> Self {
        BackendModel {
            dial_failures: recent_set::seen(self.dial_failures, self.history(), address),
            ..self
        }
    }

    /// Once the radio is switched off, nothing of what came before is reported: neither a failed
    /// dial nor a history by which a sighting would be suppressed, and no deadline is armed.
    pub proof fn law_radio_off_forgets(self, now: u64)
        ensures
            ({
                let off = self.in_transition(false, now);
                &&& off.seen.len() == 0 && off.dial_failures.len() == 0
                &&& !off.armed(false).scan_liveness && !off.armed(false).advertising_reconcile
                &&& forall|generation: u64| !off.rescans(generation)
                &&& off.in_transition(false, now) == off
            }),
    {
    }

    /// The wakes that the backend waits for. Deadlines matter only on macOS.
    pub open spec fn armed(self, pending_dials: bool) -> ArmedWakes {
        ArmedWakes {
            manager_signals: self.manager_signals_open,
            dials: pending_dials,
            scan_liveness: self.platform is Macos && self.scan_enabled,
            advertising_reconcile: self.platform is Macos && self.advertise_enabled,
        }
    }
}

/// What the backend remembers between its events. `S` is a PSM; times are milliseconds of a clock
/// that never runs backwards.
pub struct MacosBleBackend<S> {
    platform: ApplePlatform,
    psm: S,
    manager_signals_open: bool,
    central_powered_generation: u64,
    seen: BoundedRecentSet<BleAddress>,
    dial_failures: BoundedRecentSet<BleAddress>,
    scan_enabled: bool,
    advertise_enabled: bool,
    scan_liveness_at: u64,
    advertising_reconcile_at: u64,
}

impl<S> View for MacosBleBackend<S> {
    type V = BackendModel<S>;

    closed spec fn view(&self) -> BackendModel<S> {
        BackendModel {
            platform: self.platform,
            psm: self.psm,
            manager_signals_open: self.manager_signals_open,
            central_powered_generation: self.central_powered_generation,
            seen: self.seen.entries(),
            dial_failures: self.dial_failures.entries(),
            scan_enabled: self.scan_enabled,
            advertise_enabled: self.advertise_enabled,
            scan_liveness_at: self.scan_liveness_at,
            advertising_reconcile_at: self.advertising_reconcile_at,
        }
    }
}

/// Addresses are equal exactly where their octets are.
proof fn lemma_address_eq()
    ensures
        laws_eq::obeys_concrete_eq::<BleAddress>(),
{
    reveal(laws_eq::obeys_concrete_eq);
}

/// The time one liveness interval from now.
fn deadline(now: u64) -> (r: u64)
    ensures
        r == next_deadline(now),
{
    now.saturating_add(RADIO_LIVENESS_INTERVAL_MS)
}

impl<S> MacosBleBackend<S> {
    /// Both histories keep their bound.
    pub closed spec fn wf(&self) -> bool {
        &&& self.seen.wf()
        &&& self.dial_failures.wf()
        &&& self.seen.capacity() == self@.history()
        &&& self.dial_failures.capacity() == self@.history()
    }

    /// A backend whose managers have just become ready.
    pub fn new(platform: ApplePlatform, psm: S, generation: u64, now: u64) -> (r: Self)
        ensures
            r.wf(),
            r@ == BackendModel::ready(platform, psm, generation, now),
    {
        let capacity = central_peripheral_capacity(platform.max_peers());
        MacosBleBackend {
            platform,
            psm,
            manager_signals_open: true,
            central_powered_generation: generation,
            seen: BoundedRecentSet::new(capacity),
            dial_failures: BoundedRecentSet::new(capacity),
            scan_enabled: false,
            advertise_enabled: false,
            scan_liveness_at: deadline(now),
            advertising_reconcile_at: deadline(now),
        }
    }

    /// The PSM of the L2CAP listener.
    pub fn psm(&self) -> (r: &S)
        ensures
            *r == self@.psm,
    {
        &self.psm
    }

    /// When the scan lease runs out.
    pub fn scan_liveness_at(&self) -> (r: u64)
        ensures
            r == self@.scan_liveness_at,
    {
        self.scan_liveness_at
    }

    /// When advertising is reconciled.
    pub fn advertising_reconcile_at(&self) -> (r: u64)
        ensures
            r == self@.advertising_reconcile_at,
    {
        self.advertising_reconcile_at
    }

    /// The wakes to wait for.
    pub fn armed(&self, pending_dials: bool) -> (r: ArmedWakes)
        ensures
            r == self@.armed(pending_dials),
    {
        ArmedWakes {
            manager_signals: self.manager_signals_open,
            dials: pending_dials,
            scan_liveness: self.platform == ApplePlatform::Macos && self.scan_enabled,
            advertising_reconcile: self.platform == ApplePlatform::Macos && self.advertise_enabled,
        }
    }

    /// Takes in the generation that the central is powered in. Says whether the scan is to be
    /// restarted.
    pub fn reconcile_manager_signals(&mut self, generation: u64) -> (r: bool)
        requires
            old(self).wf(),
        ensures
            final(self).wf(),
            r == old(self)@.rescans(generation),
            final(self)@ == (BackendModel {
                central_powered_generation: generation,
                ..old(self)@
            }),
    {
        let powered_again = generation != self.central_powered_generation;
        self.central_powered_generation = generation;
        powered_again && self.scan_enabled
    }

    /// Forgets what was seen and what failed, and gives the radio a full interval.
    pub fn clear_local_radio_state(&mut self, now: u64)
        requires
            old(self).wf(),
        ensures
            final(self).wf(),
            final(self)@ == old(self)@.cleared(now),
    {
        self.seen.clear();
        self.dial_failures.clear();
        self.scan_liveness_at = deadline(now);
        self.advertising_reconcile_at = deadline(now);
    }

    /// Begins a radio transition.
    pub fn begin_radio_transition(&mut self, enabled: bool, now: u64)
        requires
            old(self).wf(),
        ensures
            final(self).wf(),
            final(self)@ == old(self)@.in_transition(enabled, now),
    {
        if !enabled {
            self.scan_enabled = false;
            self.advertise_enabled = false;
            self.clear_local_radio_state(now);
        }
    }

    /// Ends a radio transition. What came in while the radio was being switched off is forgotten,
    /// however the transition ended.
    pub fn finish_radio_transition(
        &mut self,
        enabled: bool,
        outcome: TransitionOutcome,
        now: u64,
    ) -> (r: Result<(), MacosBleError>)
        requires
            old(self).wf(),
        ensures
            final(self).wf(),
            final(self)@ == if enabled {
                old(self)@
            } else {
                old(self)@.cleared(now)
            },
            r == match outcome {
                TransitionOutcome::Completed => Ok(()),
                TransitionOutcome::Closed => Err(MacosBleError::Closed),
                TransitionOutcome::TimedOut => Err(MacosBleError::RadioTransitionTimeout),
            },
    {
        if !enabled {
            self.clear_local_radio_state(now);
        }
        match outcome {
            TransitionOutcome::Completed => Ok(()),
            TransitionOutcome::Closed => Err(MacosBleError::Closed),
            TransitionOutcome::TimedOut => Err(MacosBleError::RadioTransitionTimeout),
        }
    }

    /// Advertising is wanted or not.
    pub fn set_advertising(&mut self, enabled: bool, now: u64)
        requires
            old(self).wf(),
        ensures
            final(self).wf(),
            final(self)@ == (BackendModel {
                advertise_enabled: enabled,
                advertising_reconcile_at: next_deadline(now),
                ..old(self)@
            }),
    {
        self.advertise_enabled = enabled;
        self.advertising_reconcile_at = deadline(now);
    }

    /// Scanning is wanted or not. Says whether a running scan is restarted.
    pub fn set_scanning(&mut self, enabled: bool, now: u64) -> (r: bool)
        requires
            old(self).wf(),
        ensures
            final(self).wf(),
            final(self)@ == (BackendModel {
                scan_enabled: enabled,
                scan_liveness_at: next_deadline(now),
                ..old(self)@
            }),
            r == (old(self)@.platform is Macos && enabled),
    {
        self.scan_enabled = enabled;
        self.scan_liveness_at = deadline(now);
        self.platform == ApplePlatform::Macos && enabled
    }
}

impl<S> MacosBleBackend<S> {
    /// What the backend has to report without waiting: an offered restored peer, and otherwise the
    /// failed dial that was remembered longest.
    pub fn poll<L>(&mut self, offered: Option<CoreBluetoothPeerId>) -> (r: Option<BleEvent<L>>)
        requires
            old(self).wf(),
        ensures
            final(self).wf(),
            match offered {
                Some(peer_id) => {
                    &&& final(self)@ == old(self)@
                    &&& r == Some(
                        BleEvent::<L>::Sighting { address: peer_id.spec_address(), rssi: None },
                    )
                },
                None => if old(self)@.dial_failures.len() > 0 {
                    &&& r == Some(
                        BleEvent::<L>::DialFailed { address: old(self)@.dial_failures[0] },
                    )
                    &&& final(self)@ == (BackendModel {
                        dial_failures: old(self)@.dial_failures.skip(1),
                        ..old(self)@
                    })
                } else {
                    r is None && final(self)@ == old(self)@
                },
            },
    {
        if let Some(peer_id) = offered {
            return Some(BleEvent::Sighting { address: peer_id.address(), rssi: None });
        }
        match self.dial_failures.pop_front() {
            Some(address) => Some(BleEvent::DialFailed { address }),
            None => None,
        }
    }

    /// What the backend does after a wake.
    pub fn on_wake<L>(&mut self, wake: BackendWake<L>, now: u64) -> (r: BackendStep<L>)
        requires
            old(self).wf(),
        ensures
            final(self).wf(),
            (final(self)@, r) == old(self)@.woken(wake, now),
    {
        match wake {
            BackendWake::ManagerSignals(None) => {
                self.manager_signals_open = false;
                BackendStep::Continue
            },
            BackendWake::ManagerSignals(Some(generation)) => {
                if self.reconcile_manager_signals(generation) {
                    BackendStep::RestartScan
                } else {
                    BackendStep::Continue
                }
            },
            BackendWake::Inbound(Some(link)) => BackendStep::Return(BleEvent::Inbound(link)),
            BackendWake::Inbound(None) => BackendStep::Pending,
            BackendWake::Dial(Some(DialTaskOutcome::Ready { link, peer_rssi })) => {
                BackendStep::Return(
                    BleEvent::LinkReady { link, origin: Origin::Dialed, peer_rssi },
                )
            },
            BackendWake::Dial(Some(DialTaskOutcome::Failed { address })) => {
                BackendStep::Return(BleEvent::DialFailed { address })
            },
            BackendWake::Dial(None) => BackendStep::Continue,
            BackendWake::Sighted(Some(sighting)) => {
                BackendStep::Return(
                    BleEvent::Sighting { address: sighting.address, rssi: sighting.rssi },
                )
            },
            BackendWake::Sighted(None) => BackendStep::Continue,
            BackendWake::SightingsClosed => BackendStep::Pending,
            BackendWake::ScanLiveness { activity } => {
                let lease = scan_lease(self.scan_enabled, activity);
                self.scan_liveness_at = deadline(now);
                if lease == ScanLease::Expired {
                    BackendStep::RestartScan
                } else {
                    BackendStep::Continue
                }
            },
            BackendWake::AdvertisingReconcile => {
                self.advertising_reconcile_at = deadline(now);
                BackendStep::ReconcileAdvertising
            },
        }
    }

    /// A peer was seen by somebody who wants each address once. Says whether the address is to be
    /// reported: it is not while it is among those seen most recently.
    pub fn next_sighting(&mut self, address: BleAddress) -> (r: Option<BleAddress>)
        requires
            old(self).wf(),
        ensures
            final(self).wf(),
            r == if old(self)@.seen.contains(address) {
                None
            } else {
                Some(address)
            },
            final(self)@ == (BackendModel {
                seen: recent_set::seen(old(self)@.seen, old(self)@.history(), address),
                ..old(self)@
            }),
    {
        proof {
            lemma_address_eq();
        }
        if self.seen.insert(address) {
            Some(address)
        } else {
            None
        }
    }

    /// A dial was asked for, and this is what the registry found. A peer that is missing or busy is
    /// remembered as a failed dial, which the host learns of with its next event.
    pub fn dial<P>(
        &mut self,
        radio_enabled: bool,
        address: BleAddress,
        candidate: CentralDialCandidate<P>,
    ) -> (r: (DialOutcome, Option<DialTarget<P>>))
        requires
            old(self).wf(),
        ensures
            final(self).wf(),
            if radio_enabled {
                &&& r.0 == DialOutcome::Started
                &&& match candidate {
                    CentralDialCandidate::Ready { peer_id, peripheral, rssi, restored } => {
                        &&& r.1 == Some(DialTarget { peer_id, peripheral, rssi, restored })
                        &&& final(self)@ == old(self)@
                    },
                    _ => r.1 is None && final(self)@ == old(self)@.with_failure(address),
                }
            } else {
                r == (DialOutcome::RadioOff, None::<DialTarget<P>>) && final(self)@ == old(self)@
            },
    {
        if !radio_enabled {
            return (DialOutcome::RadioOff, None);
        }
        match candidate {
            CentralDialCandidate::Ready { peer_id, peripheral, rssi, restored } => {
                (DialOutcome::Started, Some(DialTarget { peer_id, peripheral, rssi, restored }))
            },
            _ => {
                proof {
                    lemma_address_eq();
                }
                self.dial_failures.insert(address);
                (DialOutcome::Started, None)
            },
        }
    }
}

impl<S> BackendModel<S> {
    /// The backend after the wake, and what it does next.
    pub open spec fn woken<L>(self, wake: BackendWake<L>, now: u64) -> (Self, BackendStep<L>) {
        match wake {
            BackendWake::ManagerSignals(None) => (
                BackendModel { manager_signals_open: false, ..self },
                BackendStep::Continue,
            ),
            BackendWake::ManagerSignals(Some(generation)) => (
                BackendModel { central_powered_generation: generation, ..self },
                if self.rescans(generation) {
                    BackendStep::RestartScan
                } else {
                    BackendStep::Continue
                },
            ),
            BackendWake::Inbound(Some(link)) => (
                self,
                BackendStep::Return(BleEvent::Inbound(link)),
            ),
            BackendWake::Inbound(None) => (self, BackendStep::Pending),
            BackendWake::Dial(Some(DialTaskOutcome::Ready { link, peer_rssi })) => (
                self,
                BackendStep::Return(
                    BleEvent::LinkReady { link, origin: Origin::Dialed, peer_rssi },
                ),
            ),
            BackendWake::Dial(Some(DialTaskOutcome::Failed { address })) => (
                self,
                BackendStep::Return(BleEvent::DialFailed { address }),
            ),
            BackendWake::Dial(None) => (self, BackendStep::Continue),
            BackendWake::Sighted(Some(sighting)) => (
                self,
                BackendStep::Return(
                    BleEvent::Sighting { address: sighting.address, rssi: sighting.rssi },
                ),
            ),
            BackendWake::Sighted(None) => (self, BackendStep::Continue),
            BackendWake::SightingsClosed => (self, BackendStep::Pending),
            BackendWake::ScanLiveness { activity } => (
                BackendModel { scan_liveness_at: next_deadline(now), ..self },
                if self.scan_enabled && !activity {
                    BackendStep::RestartScan
                } else {
                    BackendStep::Continue
                },
            ),
            BackendWake::AdvertisingReconcile => (
                BackendModel { advertising_reconcile_at: next_deadline(now), ..self },
                BackendStep::ReconcileAdvertising,
            ),
        }
    }

    /// The radio is touched only by a wake that calls for it: a scan is restarted only while it is
    /// wanted, and then because the central was powered again or because no discovery was seen for
    /// a whole interval.
    pub proof fn law_scan_is_restarted_only_where_wanted<L>(self, wake: BackendWake<L>, now: u64)
        requires
            self.woken(wake, now).1 is RestartScan,
        ensures
            self.scan_enabled,
            match wake {
                BackendWake::ManagerSignals(Some(generation)) => generation
                    != self.central_powered_generation,
                BackendWake::ScanLiveness { activity } => !activity,
                _ => false,
            },
    {
    }
}

/// How a dial task was answered.
pub enum DialTaskEvent<K> {
    /// The session says how the dial ended.
    Completed(DialCompletion<K>),
    /// The session is gone without a word.
    Closed,
    /// The dial took too long.
    TimedOut,
}

/// What a dial task does once it was answered.
pub enum DialTaskStep<K> {
    /// Make a link of the characteristics.
    Link(DialChars<K>),
    /// Report the failed dial, after cleaning up after the peer where told so.
    Fail { clean_up: bool },
}

/// Decides what a dial task does. A session that answered has cleaned up already.
pub fn dial_task_step<K>(event: DialTaskEvent<K>) -> (r: DialTaskStep<K>)
    ensures
        match event {
            DialTaskEvent::Completed(DialCompletion::Ready(chars)) => r == DialTaskStep::Link(chars),
            DialTaskEvent::Completed(_) => r == DialTaskStep::<K>::Fail { clean_up: false },
            _ => r == DialTaskStep::<K>::Fail { clean_up: true },
        },
{
    match event {
        DialTaskEvent::Completed(DialCompletion::Ready(chars)) => DialTaskStep::Link(chars),
        DialTaskEvent::Completed(_) => DialTaskStep::Fail { clean_up: false },
        _ => DialTaskStep::Fail { clean_up: true },
    }
}

/// Something that happened while the managers become ready.
pub enum ReadinessEvent {
    /// The managers reported this.
    Signals(ManagerSignals),
    /// Nobody will report any more.
    Closed,
    /// It took too long.
    TimedOut,
}

/// CoreBluetooth managers that exist, while radio authorization, service publication and L2CAP
/// readiness are still to come.
pub struct PreparedMacosBleBackend {
    pub platform: ApplePlatform,
}

impl PreparedMacosBleBackend {
    /// The backend once everything is ready, nothing while it is not, or the reason why it never
    /// will be. `psm` turns the published number into a PSM, or turns it down.
    pub fn ready<S, F: Fn(u16) -> Option<S>>(&self, event: ReadinessEvent, psm: F, now: u64) -> (r:
        Result<Option<MacosBleBackend<S>>, MacosBleError>)
        requires
            forall|raw: u16| call_requires(psm, (raw,)),
        ensures
            match event {
                ReadinessEvent::TimedOut => r matches Err(error) && error
                    == MacosBleError::PowerOnTimeout,
                ReadinessEvent::Closed => r matches Err(error) && error == MacosBleError::Closed,
                ReadinessEvent::Signals(signals) => match r {
                    Ok(Some(backend)) => {
                        &&& backend.wf()
                        &&& !signals.failed()
                        &&& signals.ready_psm() matches Some(raw)
                        &&& call_ensures(psm, (raw,), Some(backend@.psm))
                        &&& backend@ == BackendModel::ready(
                            self.platform,
                            backend@.psm,
                            signals.central_powered_generation,
                            now,
                        )
                    },
                    Ok(None) => !signals.failed() && signals.ready_psm() is None,
                    Err(error) => error == MacosBleError::PublishFailed && (signals.failed() || (
                    signals.ready_psm() matches Some(raw) && call_ensures(psm, (raw,), None))),
                },
            },
    {
        let signals = match event {
            ReadinessEvent::TimedOut => {
                return Err(MacosBleError::PowerOnTimeout);
            },
            ReadinessEvent::Closed => {
                return Err(MacosBleError::Closed);
            },
            ReadinessEvent::Signals(signals) => signals,
        };
        match manager_readiness(signals, psm) {
            Ok(Some(psm)) => Ok(
                Some(
                    MacosBleBackend::new(
                        self.platform,
                        psm,
                        signals.central_powered_generation,
                        now,
                    ),
                ),
            ),
            Ok(None) => Ok(None),
            Err(error) => Err(error),
        }
    }
}

} // verus!
