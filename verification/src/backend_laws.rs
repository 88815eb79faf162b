//! What holds of the backend between its events: what the host is told, once and in order, and when
//! the radio is touched.

use crate::backend;
use crate::backend::{
    ApplePlatform, ArmedWakes, BackendStep, BackendWake, BleEvent, DialOutcome, DialTarget,
    DialTaskEvent, DialTaskOutcome, DialTaskStep, MacosBleBackend, ManagerPreparation, Origin,
    PreparedMacosBleBackend, ReadinessEvent, TransitionOutcome, DIAL_TIMEOUT_MS,
    POWER_ON_TIMEOUT_MS, RADIO_LIVENESS_INTERVAL_MS, RADIO_TRANSITION_TIMEOUT_MS,
};
use crate::central::CentralState;
use crate::discovery::{SERVICE_MISS_TTL_MS, STALE_CANCELLATION_MS};
use crate::error::MacosBleError;
use crate::peer::{BleAddress, CoreBluetoothPeerId};
use crate::registry_model::CentralDialCandidate;
use crate::restoration::CoreBluetoothRestorationIdentifiers;
use crate::session::DialCompletion;
use crate::signals::{L2capPublicationState, PublicationState};
use vstd::prelude::*;

verus! {

/// But for what it remembers of its peers, the backend is the earlier one.
pub open spec fn keeps_the_radio<S>(
    earlier: MacosBleBackend<S>,
    backend: MacosBleBackend<S>,
) -> bool {
    &&& backend@.platform == earlier@.platform
    &&& backend@.psm == earlier@.psm
    &&& backend@.manager_signals_open == earlier@.manager_signals_open
    &&& backend@.central_powered_generation == earlier@.central_powered_generation
    &&& backend@.scan_enabled == earlier@.scan_enabled
    &&& backend@.advertise_enabled == earlier@.advertise_enabled
    &&& backend@.scan_liveness_at == earlier@.scan_liveness_at
    &&& backend@.advertising_reconcile_at == earlier@.advertising_reconcile_at
}

/// A restored peer is reported before anything else, by its address and without a signal. Failed
/// dials are reported in the order in which they were remembered, each once.
pub proof fn law_reports_come_in_order<S, L>(
    backend: &mut MacosBleBackend<S>,
    offered: Option<CoreBluetoothPeerId>,
    event: Option<BleEvent<L>>,
)
    requires
        call_ensures(MacosBleBackend::<S>::poll::<L>, (backend, offered), event),
    ensures
        keeps_the_radio(*old(backend), *final(backend)),
        final(backend)@.seen == old(backend)@.seen,
        event is Some <==> offered is Some || old(backend)@.dial_failures.len() > 0,
        offered matches Some(peer_id) ==> {
            &&& event matches Some(BleEvent::Sighting { address, rssi })
            &&& address == peer_id.spec_address() && rssi is None
            &&& final(backend)@.dial_failures == old(backend)@.dial_failures
        },
        offered is None && event is Some ==> {
            &&& event matches Some(BleEvent::DialFailed { address })
            &&& address == old(backend)@.dial_failures[0]
            &&& final(backend)@.dial_failures.len() == old(backend)@.dial_failures.len() - 1
            &&& forall|i: int|
                0 <= i < final(backend)@.dial_failures.len() ==> #[trigger] final(
                    backend)@.dial_failures[i] == old(backend)@.dial_failures[i + 1]
        },
{
}

/// A dial that finds its peer goes to that peer, as it was found. One that does not is remembered,
/// and the host learns of it: where no other failure waits, with the next report. With the radio off
/// nothing is dialed and nothing remembered.
pub proof fn law_failed_dial_is_reported<S, P, L>(
    backend: &mut MacosBleBackend<S>,
    radio_enabled: bool,
    address: BleAddress,
    candidate: CentralDialCandidate<P>,
    dialed: (DialOutcome, Option<DialTarget<P>>),
    later: &mut MacosBleBackend<S>,
    event: Option<BleEvent<L>>,
)
    requires
        call_ensures(
            MacosBleBackend::<S>::dial::<P>,
            (backend, radio_enabled, address, candidate),
            dialed,
        ),
        *old(later) == *final(backend),
        call_ensures(MacosBleBackend::<S>::poll::<L>, (later, None), event),
        old(backend)@.dial_failures.len() == 0,
    ensures
        keeps_the_radio(*old(backend), *final(later)),
        dialed.0 == DialOutcome::RadioOff <==> !radio_enabled,
        dialed.1 is Some <==> radio_enabled && candidate is Ready,
        dialed.1 matches Some(target) ==> {
            &&& candidate matches CentralDialCandidate::Ready {
                peer_id,
                peripheral,
                rssi,
                restored,
            }
            &&& target.peer_id == peer_id && target.peripheral == peripheral
            &&& target.rssi == rssi && target.restored == restored
        },
        event is Some <==> radio_enabled && !(candidate is Ready),
        event is Some ==> (event matches Some(BleEvent::DialFailed { address: failed }) && failed
            == address),
        final(later)@.dial_failures.len() == 0,
{
}

/// An address is reported exactly where it is not among those reported most recently, and from then
/// on it is among them: the same address is not reported twice in a row.
pub proof fn law_sighting_is_reported_once<S>(
    backend: &mut MacosBleBackend<S>,
    address: BleAddress,
    first: Option<BleAddress>,
    later: &mut MacosBleBackend<S>,
    second: Option<BleAddress>,
)
    requires
        call_ensures(MacosBleBackend::<S>::next_sighting, (backend, address), first),
        *old(later) == *final(backend),
        call_ensures(MacosBleBackend::<S>::next_sighting, (later, address), second),
    ensures
        first is Some <==> !old(backend)@.seen.contains(address),
        first matches Some(reported) ==> reported == address,
        second is None,
        keeps_the_radio(*old(backend), *final(later)),
        final(later)@.dial_failures == old(backend)@.dial_failures,
{
    let before = old(backend)@.seen;
    let after = final(backend)@.seen;
    assert(after.len() > 0);
    assert(after[after.len() - 1] == address);
}

/// What wakes the backend is handed to the host as it came: a link, a peer that was seen, or the
/// address of a failed dial. Nothing else reaches the host by a wake, and what the backend remembers
/// of its peers stays.
pub proof fn law_wake_reaches_the_host<S, L>(
    backend: &mut MacosBleBackend<S>,
    wake: BackendWake<L>,
    now: u64,
    step: BackendStep<L>,
)
    requires
        call_ensures(MacosBleBackend::<S>::on_wake::<L>, (backend, wake, now), step),
    ensures
        final(backend)@.seen == old(backend)@.seen,
        final(backend)@.dial_failures == old(backend)@.dial_failures,
        final(backend)@.platform == old(backend)@.platform,
        final(backend)@.psm == old(backend)@.psm,
        final(backend)@.scan_enabled == old(backend)@.scan_enabled,
        final(backend)@.advertise_enabled == old(backend)@.advertise_enabled,
        step is Return <==> {
            ||| wake matches BackendWake::Inbound(Some(_))
            ||| wake matches BackendWake::Dial(Some(_))
            ||| wake matches BackendWake::Sighted(Some(_))
        },
        wake matches BackendWake::Inbound(Some(link)) ==> (step matches BackendStep::Return(
            BleEvent::Inbound(given),
        ) && given == link),
        wake matches BackendWake::Dial(Some(DialTaskOutcome::Ready { link, peer_rssi })) ==> (
        step matches BackendStep::Return(BleEvent::LinkReady { link: given, origin, peer_rssi: rssi })
            && given == link && origin == Origin::Dialed && rssi == peer_rssi),
        wake matches BackendWake::Dial(Some(DialTaskOutcome::Failed { address })) ==> (
        step matches BackendStep::Return(BleEvent::DialFailed { address: given }) && given
            == address),
        wake matches BackendWake::Sighted(Some(sighting)) ==> (step matches BackendStep::Return(
            BleEvent::Sighting { address, rssi },
        ) && address == sighting.address && rssi == sighting.rssi),
        step is Pending <==> wake is SightingsClosed || (wake matches BackendWake::Inbound(None)),
{
}

/// The scan is restarted exactly where it is wanted and either the central was powered since, or a
/// whole minute has passed without a discovery. Advertising is asked for exactly where its minute is
/// over. Either deadline is set anew where it ran out, and by nothing else.
pub proof fn law_wake_touches_the_radio<S, L>(
    backend: &mut MacosBleBackend<S>,
    wake: BackendWake<L>,
    now: u64,
    step: BackendStep<L>,
)
    requires
        now < 0xffff_ffff_0000_0000,
        call_ensures(MacosBleBackend::<S>::on_wake::<L>, (backend, wake, now), step),
    ensures
        step is RestartScan <==> old(backend)@.scan_enabled && {
            ||| wake matches BackendWake::ManagerSignals(Some(generation)) && generation != old(
                backend)@.central_powered_generation
            ||| wake matches BackendWake::ScanLiveness { activity } && !activity
        },
        step is ReconcileAdvertising <==> wake is AdvertisingReconcile,
        final(backend)@.scan_liveness_at == if wake is ScanLiveness {
            now + 60_000
        } else {
            old(backend)@.scan_liveness_at as int
        },
        final(backend)@.advertising_reconcile_at == if wake is AdvertisingReconcile {
            now + 60_000
        } else {
            old(backend)@.advertising_reconcile_at as int
        },
        wake matches BackendWake::ManagerSignals(Some(generation)) ==> final(
            backend)@.central_powered_generation == generation,
        !(wake matches BackendWake::ManagerSignals(Some(_))) ==> final(
            backend)@.central_powered_generation == old(backend)@.central_powered_generation,
        final(backend)@.manager_signals_open <==> old(backend)@.manager_signals_open && !(
        wake matches BackendWake::ManagerSignals(None)),
{
}

/// The same generation restarts the scan once: when it is reported again, nothing happens.
pub proof fn law_generation_restarts_the_scan_once<S>(
    backend: &mut MacosBleBackend<S>,
    generation: u64,
    first: bool,
    later: &mut MacosBleBackend<S>,
    second: bool,
)
    requires
        call_ensures(
            MacosBleBackend::<S>::reconcile_manager_signals,
            (backend, generation),
            first,
        ),
        *old(later) == *final(backend),
        call_ensures(
            MacosBleBackend::<S>::reconcile_manager_signals,
            (later, generation),
            second,
        ),
    ensures
        first <==> old(backend)@.scan_enabled && old(backend)@.central_powered_generation
            != generation,
        !second,
        final(later)@ == final(backend)@,
{
}

/// The deadlines are waited for on macOS alone, each while what it watches over is wanted; dials
/// are waited for while there are any, and the managers while they report.
pub proof fn law_armed_wakes<S>(
    backend: MacosBleBackend<S>,
    pending_dials: bool,
    armed: ArmedWakes,
)
    requires
        call_ensures(MacosBleBackend::<S>::armed, (&backend, pending_dials), armed),
    ensures
        armed.dials == pending_dials,
        armed.manager_signals == backend@.manager_signals_open,
        armed.scan_liveness <==> backend@.platform == ApplePlatform::Macos
            && backend@.scan_enabled,
        armed.advertising_reconcile <==> backend@.platform == ApplePlatform::Macos
            && backend@.advertise_enabled,
{
}

/// A wanted scan is restarted on macOS where it runs already, and nowhere else. Asking for the scan
/// or for advertising gives that one a whole minute and leaves the other alone.
pub proof fn law_asking_for_the_radio<S>(
    backend: &mut MacosBleBackend<S>,
    enabled: bool,
    now: u64,
    restart: bool,
    advertiser: &mut MacosBleBackend<S>,
)
    requires
        now < 0xffff_ffff_0000_0000,
        call_ensures(MacosBleBackend::<S>::set_scanning, (backend, enabled, now), restart),
        *old(advertiser) == *old(backend),
        call_ensures(MacosBleBackend::<S>::set_advertising, (advertiser, enabled, now), ()),
    ensures
        restart <==> enabled && old(backend)@.platform == ApplePlatform::Macos,
        final(backend)@.scan_enabled == enabled,
        final(backend)@.scan_liveness_at == now + 60_000,
        final(backend)@.advertise_enabled == old(backend)@.advertise_enabled,
        final(backend)@.advertising_reconcile_at == old(backend)@.advertising_reconcile_at,
        final(backend)@.seen == old(backend)@.seen,
        final(backend)@.dial_failures == old(backend)@.dial_failures,
        final(advertiser)@.advertise_enabled == enabled,
        final(advertiser)@.advertising_reconcile_at == now + 60_000,
        final(advertiser)@.scan_enabled == old(backend)@.scan_enabled,
        final(advertiser)@.scan_liveness_at == old(backend)@.scan_liveness_at,
        final(advertiser)@.seen == old(backend)@.seen,
        final(advertiser)@.dial_failures == old(backend)@.dial_failures,
{
}

/// While the radio is switched off, nothing is scanned for or advertised and nothing is remembered,
/// however the switch ends. Switching it on changes nothing. The host is told how the switch ended.
pub proof fn law_radio_transition<S>(
    backend: &mut MacosBleBackend<S>,
    enabled: bool,
    now: u64,
    later: &mut MacosBleBackend<S>,
    outcome: TransitionOutcome,
    end: u64,
    ended: Result<(), MacosBleError>,
)
    requires
        call_ensures(
            MacosBleBackend::<S>::begin_radio_transition,
            (backend, enabled, now),
            (),
        ),
        old(later)@.scan_enabled == final(backend)@.scan_enabled,
        old(later)@.advertise_enabled == final(backend)@.advertise_enabled,
        call_ensures(
            MacosBleBackend::<S>::finish_radio_transition,
            (later, enabled, outcome, end),
            ended,
        ),
    ensures
        enabled ==> final(backend)@ == old(backend)@ && final(later)@ == old(later)@,
        !enabled ==> {
            &&& !final(backend)@.scan_enabled && !final(backend)@.advertise_enabled
            &&& final(backend)@.seen.len() == 0 && final(backend)@.dial_failures.len() == 0
            &&& !final(later)@.scan_enabled && !final(later)@.advertise_enabled
            &&& final(later)@.seen.len() == 0 && final(later)@.dial_failures.len() == 0
            &&& final(later)@.psm == old(later)@.psm
            &&& final(later)@.central_powered_generation == old(
                later)@.central_powered_generation
            &&& final(later)@.manager_signals_open == old(later)@.manager_signals_open
        },
        ended is Ok <==> outcome is Completed,
        outcome is Closed ==> ended == Err::<(), MacosBleError>(MacosBleError::Closed),
        outcome is TimedOut ==> ended == Err::<(), MacosBleError>(
            MacosBleError::RadioTransitionTimeout,
        ),
{
}

/// A backend has at most eight peers on macOS and seven on iOS, and keeps track of four peripherals
/// for each; stale links are recovered on macOS alone. At first nothing is held.
pub proof fn law_central_role_of_the_platform<P, C, K, D, T>(
    platform: ApplePlatform,
    callback_budget: usize,
    state: CentralState<P, C, K, D, T>,
)
    requires
        call_ensures(
            backend::central_state::<P, C, K, D, T>,
            (platform, callback_budget),
            state,
        ),
    ensures
        platform is Macos ==> state@.registry.peripheral_capacity == 32
            && state@.registry.restored_capacity == 8 && state@.recovery is Enabled,
        platform is Ios ==> state@.registry.peripheral_capacity == 28
            && state@.registry.restored_capacity == 7 && state@.recovery is Disabled,
        state@.registry.callback_budget == callback_budget,
        state@.registry.peripherals.len() == 0 && state@.registry.restored.len() == 0,
        state@.sessions.dom() =~= Set::<CoreBluetoothPeerId>::empty(),
        state@.guard.misses.len() == 0,
{
}

/// Managers are restored where the application says nothing on iOS alone.
pub proof fn law_platform_preparation(
    platform: ApplePlatform,
    preparation: ManagerPreparation,
)
    requires
        call_ensures(ManagerPreparation::platform_default, (platform,), preparation),
    ensures
        preparation is RestorationAware <==> platform is Ios,
        preparation is PlatformDefault <==> platform is Macos,
{
}

/// Managers are restored under identifiers exactly where they were prepared with them, and then
/// under these.
pub proof fn law_restoration_of_managers(
    preparation: ManagerPreparation,
    identifiers: Option<&CoreBluetoothRestorationIdentifiers>,
)
    requires
        call_ensures(
            ManagerPreparation::restoration_identifiers,
            (&preparation,),
            identifiers,
        ),
    ensures
        identifiers is Some <==> preparation is RestorationAware,
        preparation matches ManagerPreparation::RestorationAware(given) ==> identifiers == Some(
            &given,
        ),
{
}

/// A dial leads to a link exactly where its session says that the peer is ready, and then by the
/// characteristics that it names. A dial that heard nothing from its session cleans up after it.
pub proof fn law_dial_task<K>(event: DialTaskEvent<K>, step: DialTaskStep<K>)
    requires
        call_ensures(backend::dial_task_step::<K>, (event,), step),
    ensures
        step is Link <==> (event matches DialTaskEvent::Completed(DialCompletion::Ready(_))),
        event matches DialTaskEvent::Completed(DialCompletion::Ready(chars)) ==> (
        step matches DialTaskStep::Link(given) && given == chars),
        step matches DialTaskStep::Fail { clean_up } ==> (clean_up <==> event is Closed
            || event is TimedOut),
{
}

/// A backend comes up exactly where the central is powered, the service is published and the
/// listener is published on a number that is a PSM; it bears that PSM and the generation that was
/// reported, wants neither a scan nor advertising, and remembers nothing. It fails with the reason
/// why it never will.
pub proof fn law_backend_comes_up<S, F: Fn(u16) -> Option<S>>(
    prepared: PreparedMacosBleBackend,
    event: ReadinessEvent,
    psm: F,
    read: spec_fn(u16) -> Option<S>,
    now: u64,
    ready: Result<Option<MacosBleBackend<S>>, MacosBleError>,
)
    requires
        call_ensures(
            PreparedMacosBleBackend::ready::<S, F>,
            (&prepared, event, psm, now),
            ready,
        ),
        forall|raw: u16, answer: Option<S>| #[trigger]
            call_ensures(psm, (raw,), answer) ==> answer == read(raw),
    ensures
        event is TimedOut ==> (ready matches Err(error) && error == MacosBleError::PowerOnTimeout),
        event is Closed ==> (ready matches Err(error) && error == MacosBleError::Closed),
        event matches ReadinessEvent::Signals(signals) ==> {
            let failed = signals.gatt == PublicationState::Failed || signals.l2cap
                == L2capPublicationState::Failed;
            let complete = signals.central_powered_generation != 0 && signals.gatt
                == PublicationState::Published && signals.l2cap is Published;
            &&& failed ==> (ready matches Err(error) && error == MacosBleError::PublishFailed)
            &&& !failed && !complete ==> (ready matches Ok(None))
            &&& !failed && complete && read(signals.l2cap->Published_0) is None ==> (
            ready matches Err(error) && error == MacosBleError::PublishFailed)
            &&& !failed && complete ==> (read(signals.l2cap->Published_0) matches Some(psm) ==> {
                &&& ready matches Ok(Some(backend))
                &&& backend@.psm == psm
                &&& backend@.platform == prepared.platform
                &&& backend@.central_powered_generation == signals.central_powered_generation
                &&& backend@.manager_signals_open
                &&& !backend@.scan_enabled && !backend@.advertise_enabled
                &&& backend@.seen.len() == 0 && backend@.dial_failures.len() == 0
            })
        },
{
}

/// The time limits stand in this order: a radio transition ends before managers that do not power on
/// are given up, those before a dial is, and a scan outlasts every dial that it led to. A link that
/// was cancelled is left alone for longer than a dial takes, and a peer without the service for
/// longer than a scan goes without a sign of life.
pub proof fn law_time_limits()
    ensures
        RADIO_TRANSITION_TIMEOUT_MS == 2_000,
        POWER_ON_TIMEOUT_MS == 10_000,
        DIAL_TIMEOUT_MS == 15_000,
        RADIO_LIVENESS_INTERVAL_MS == 60_000,
        RADIO_TRANSITION_TIMEOUT_MS < POWER_ON_TIMEOUT_MS < DIAL_TIMEOUT_MS
            < STALE_CANCELLATION_MS < RADIO_LIVENESS_INTERVAL_MS < SERVICE_MISS_TTL_MS,
{
}

} // verus!
