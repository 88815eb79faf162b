//! What holds of the decisions that both roles rest on: whom to dial, whom to adopt, what to
//! remember, and what the two managers are asked for.

use crate::announce;
use crate::announce::{AnnounceObservation, Journaled};
use crate::budget::InboundBudget;
use crate::central_events;
use crate::dial;
use crate::dial::{DialFacts, DialPlan, DialRejection, DialStart, PeripheralLinkState};
use crate::discovery;
use crate::discovery::{
    CandidateStrength, DiscoverDisposition, DiscoveryGuard, SessionPresence, StaleCancellation,
    StaleLinkRecovery,
};
use crate::error::MacosBleError;
use crate::inspection;
use crate::inspection::{
    Inspection, InspectionError, InspectionQuery, InspectionRequest, InspectionResponse,
    InspectionTurn, InspectionValue, LaneEvent,
};
use crate::peer::{BleAddress, BleIdentity, CoreBluetoothPeerId};
use crate::peripheral;
use crate::profile;
use crate::profile::{
    BleUuid, CharacteristicPlan, CharacteristicRole, DiscoveredProfile, FoundCharacteristic,
    ProfileUuids,
};
use crate::radio;
use crate::radio::{AdvertisingOp, ScanLease, ScanOp};
use crate::recent_set::BoundedRecentSet;
use crate::restoration::{
    CoreBluetoothRestorationIdentifiers, CoreBluetoothRestorationIdentifiersError,
};
use crate::restored;
use crate::restored::RestoredCallbackBuffer;
use crate::search;
use crate::signals;
use crate::signals::{
    L2capPublicationState, ManagerSignal, ManagerSignalSender, ManagerSignals, PublicationState,
};
use vstd::prelude::*;

verus! {

/// A peer that dialed this host is never dialed back, a restored connection that is going away is
/// not taken up, and an observation of a peer that is connected elsewhere yields. In every other
/// case the dial begins, and asks for as much as the restored connection lacks: nothing but its
/// services where it is up, nothing at all while it is coming up, and a connection otherwise.
pub proof fn law_dial_decision(facts: DialFacts, plan: DialPlan)
    requires
        call_ensures(dial::begin_dial, (facts,), plan),
    ensures
        ({
            let restored = facts.restored_connection;
            let inbound = facts.target_has_inbound_session;
            let state = facts.link_state;
            let going = state == PeripheralLinkState::Disconnecting || state
                == PeripheralLinkState::Unknown;
            &&& plan is Reject <==> inbound || (restored && going) || (!restored
                && facts.system_connected)
            &&& plan matches DialPlan::Reject { rejection, cancel_connection } ==> {
                &&& rejection == DialRejection::YieldToInboundSession <==> inbound
                &&& rejection == DialRejection::RestoredConnectionUnavailable <==> !inbound
                    && restored
                &&& rejection == DialRejection::YieldToSystemConnection <==> !inbound && !restored
                &&& cancel_connection <==> inbound && restored
            }
            &&& plan matches DialPlan::Begin(start) ==> {
                &&& start == DialStart::Discover <==> restored && state
                    == PeripheralLinkState::Connected
                &&& start == DialStart::AwaitConnection <==> restored && state
                    == PeripheralLinkState::Connecting
                &&& start == DialStart::Connect <==> !restored || state
                    == PeripheralLinkState::Disconnected
            }
        }),
{
}

/// A peer is connected system-wide exactly where it is itself among the connected: one that shares
/// its address does not count.
pub proof fn law_system_connection_is_exact(
    connected: Vec<CoreBluetoothPeerId>,
    peer_id: CoreBluetoothPeerId,
    is_connected: bool,
)
    requires
        call_ensures(dial::is_system_connected, (&connected, peer_id), is_connected),
    ensures
        is_connected <==> exists|i: int| 0 <= i < connected@.len() && connected@[i] == peer_id,
{
}

/// A peripheral is adopted exactly where it is disconnected and has no session, and is left to its
/// owner exactly where it has one. A link that nobody owns is cancelled, where that is done at all
/// and is not under way, and waited for otherwise.
pub proof fn law_disposition(
    state: PeripheralLinkState,
    session: SessionPresence,
    cancellation: StaleCancellation,
    recovery: StaleLinkRecovery,
    made: DiscoverDisposition,
)
    requires
        call_ensures(
            discovery::discover_disposition,
            (state, session, cancellation, recovery),
            made,
        ),
    ensures
        made is IgnoreOwned <==> session is Present,
        made is Adopt <==> session is Absent && state is Disconnected,
        made is CancelStale <==> session is Absent && (state is Connecting || state is Connected)
            && cancellation is Idle && recovery is Enabled,
{
}

/// An advertisement is a strong candidate exactly where it carries the name, or manufacturer data
/// that opens with the two bytes of the test company and the marker byte.
pub proof fn law_candidate_strength(
    named: bool,
    manufacturer_data: Option<&[u8]>,
    strength: CandidateStrength,
)
    requires
        call_ensures(discovery::candidate_strength, (named, manufacturer_data), strength),
    ensures
        strength is Strong <==> named || (manufacturer_data matches Some(data) && data@.len() >= 3
            && data@[0] == 0xff && data@[1] == 0xff && data@[2] == 3),
{
    if let Some(data) = manufacturer_data {
        let marker = seq![0xffu8, 0xffu8, 0x03u8];
        if discovery::marked(data@) {
            assert(marker == data@.subrange(0, 3));
            assert(marker[0] == data@[0]);
            assert(marker[1] == data@[1]);
            assert(marker[2] == data@[2]);
        } else if data@.len() >= 3 && data@[0] == 0xff && data@[1] == 0xff && data@[2] == 3 {
            assert(marker =~= data@.subrange(0, 3));
        }
    }
}

/// A peer that was met without the service is turned away as a weak candidate for five minutes and
/// no longer, and never as a strong one.
pub proof fn law_service_miss_is_remembered(
    guard: &mut DiscoveryGuard,
    peer_id: CoreBluetoothPeerId,
    now: u64,
    asked: &mut DiscoveryGuard,
    strength: CandidateStrength,
    later: u64,
    admitted: bool,
)
    requires
        old(guard).wf(),
        call_ensures(DiscoveryGuard::record_service_miss, (guard, peer_id, now), ()),
        *old(asked) == *final(guard),
        now <= later,
        call_ensures(
            DiscoveryGuard::admit_candidate,
            (asked, peer_id, strength, later),
            admitted,
        ),
    ensures
        admitted <==> strength is Strong || later - now >= 300_000,
        final(asked)@.cancellations == old(guard)@.cancellations,
{
    guard.lemma_wf();
    old(guard)@.law_miss(peer_id, now, later);
}

/// A peer of which no miss is remembered is never turned away.
pub proof fn law_unknown_candidate_is_admitted(
    guard: &mut DiscoveryGuard,
    peer_id: CoreBluetoothPeerId,
    strength: CandidateStrength,
    now: u64,
    admitted: bool,
)
    requires
        call_ensures(
            DiscoveryGuard::admit_candidate,
            (guard, peer_id, strength, now),
            admitted,
        ),
        forall|i: int|
            0 <= i < old(guard)@.misses.len() ==> (#[trigger] old(guard)@.misses[i]).peer_id
                != peer_id,
    ensures
        admitted,
        final(guard)@.misses == old(guard)@.misses,
{
    let p = discovery::miss_of(peer_id);
    search::lemma_first_where(old(guard)@.misses, p);
    if let Some(i) = old(guard)@.miss(peer_id) {
        assert(p(old(guard)@.misses[i]));
    }
}

/// A stale link is cancelled once in thirty seconds, unless it was disconnected in between; what is
/// remembered of one peer says nothing of another.
pub proof fn law_stale_cancellation_is_remembered(
    guard: &mut DiscoveryGuard,
    peer_id: CoreBluetoothPeerId,
    now: u64,
    asked: &mut DiscoveryGuard,
    other: CoreBluetoothPeerId,
    later: u64,
    recent: bool,
)
    requires
        call_ensures(DiscoveryGuard::record_stale_cancellation, (guard, peer_id, now), ()),
        *old(asked) == *final(guard),
        now <= later,
        call_ensures(DiscoveryGuard::cancellation_recent, (asked, other, later), recent),
    ensures
        other == peer_id ==> (recent <==> later - now < 30_000),
        other != peer_id && !old(guard)@.cancellations.dom().contains(other) ==> !recent,
        final(asked)@.misses == old(guard)@.misses,
{
}

/// Once a peer was disconnected, nothing is remembered of its stale link.
pub proof fn law_disconnection_ends_the_cancellation(
    guard: &mut DiscoveryGuard,
    peer_id: CoreBluetoothPeerId,
    asked: &mut DiscoveryGuard,
    later: u64,
    recent: bool,
)
    requires
        call_ensures(DiscoveryGuard::clear_stale_cancellation, (guard, peer_id), ()),
        *old(asked) == *final(guard),
        call_ensures(DiscoveryGuard::cancellation_recent, (asked, peer_id, later), recent),
    ensures
        !recent,
        final(asked)@.misses == old(guard)@.misses,
{
}

/// The strength of a signal is known exactly where it is a number of one signed byte other than the
/// greatest, and then it is that number.
pub proof fn law_signal_strength(dbm: i64, rssi: Option<i8>)
    requires
        call_ensures(central_events::rssi_from_dbm, (dbm,), rssi),
    ensures
        rssi is Some <==> -128 <= dbm <= 126,
        rssi matches Some(rssi) ==> rssi == dbm,
{
}

/// A value is new exactly where it is not held, and then it is held, behind all others. Every other
/// value stays, but for the one that was seen longest ago where there is no room.
pub proof fn law_recent_value<T: Eq>(
    set: &mut BoundedRecentSet<T>,
    value: T,
    new: bool,
    other: T,
)
    requires
        old(set).wf(),
        call_ensures(BoundedRecentSet::<T>::insert, (set, value), new),
        old(set).capacity() > 0,
        other != value,
    ensures
        new <==> !old(set).entries().contains(value),
        final(set).entries().len() > 0 && final(set).entries().last() == value,
        final(set).entries().contains(other) ==> old(set).entries().contains(other),
        old(set).entries().contains(other) && (!new || old(set).entries().len() < old(
            set).capacity() || old(set).entries()[0] != other) ==> final(set).entries().contains(
            other,
        ),
        new && old(set).entries().len() >= old(set).capacity() && old(set).entries()[0] == other
            ==> !final(set).entries().contains(other),
        final(set).capacity() == old(set).capacity(),
{
    let before = old(set).entries();
    let after = final(set).entries();
    if before.contains(value) {
        before.index_of_first_ensures(value);
        let at = before.index_of_first(value)->0;
        assert(after == before.remove(at).push(value));
        if before.contains(other) {
            let i = before.index_of(other);
            let i1 = if i < at {
                i
            } else {
                i - 1
            };
            assert(after[i1] == other);
        }
        if after.contains(other) {
            let i = after.index_of(other);
            let i0 = if i < at {
                i
            } else {
                i + 1
            };
            assert(before[i0] == other);
        }
    } else if before.len() >= old(set).capacity() {
        assert(after == before.skip(1).push(value));
        if before.contains(other) {
            let i = before.index_of(other);
            if i > 0 {
                assert(after[i - 1] == other);
            }
        }
        if after.contains(other) {
            let i = after.index_of(other);
            assert(before[i + 1] == other);
            if before[0] == other {
                assert(before[0] == before[i + 1]);
            }
        }
    } else {
        assert(after == before.push(value));
        if before.contains(other) {
            let i = before.index_of(other);
            assert(after[i] == other);
        }
        if after.contains(other) {
            let i = after.index_of(other);
            assert(before[i] == other);
        }
    }
}

/// The characteristic for a role is the last one on the service that bears the UUID of the role,
/// and there is none only where no characteristic bears it.
pub proof fn law_profile_of_a_service<K>(
    uuids: ProfileUuids,
    found: Vec<FoundCharacteristic<K>>,
    sorted: DiscoveredProfile<K>,
)
    requires
        call_ensures(DiscoveredProfile::<K>::from_service, (&uuids, found), sorted),
        are_distinct(uuids),
    ensures
        is_last_with(found@, uuids.control@, sorted.control),
        is_last_with(found@, uuids.data@, sorted.data),
        is_last_with(found@, uuids.columba_rx@, sorted.columba_rx),
        is_last_with(found@, uuids.columba_tx@, sorted.columba_tx),
        is_last_with(found@, uuids.columba_identity@, sorted.columba_identity),
{
    assert(sorted.get(CharacteristicRole::Control) == sorted.control);
    assert(sorted.get(CharacteristicRole::Data) == sorted.data);
    assert(sorted.get(CharacteristicRole::ColumbaRx) == sorted.columba_rx);
    assert(sorted.get(CharacteristicRole::ColumbaTx) == sorted.columba_tx);
    assert(sorted.get(CharacteristicRole::ColumbaIdentity) == sorted.columba_identity);
    lemma_last_for(uuids, found@, CharacteristicRole::Control, uuids.control@);
    lemma_last_for(uuids, found@, CharacteristicRole::Data, uuids.data@);
    lemma_last_for(uuids, found@, CharacteristicRole::ColumbaRx, uuids.columba_rx@);
    lemma_last_for(uuids, found@, CharacteristicRole::ColumbaTx, uuids.columba_tx@);
    lemma_last_for(uuids, found@, CharacteristicRole::ColumbaIdentity, uuids.columba_identity@);
}

/// No two roles share a UUID.
pub open spec fn are_distinct(uuids: ProfileUuids) -> bool {
    &&& uuids.control@ != uuids.data@
    &&& uuids.control@ != uuids.columba_rx@
    &&& uuids.control@ != uuids.columba_tx@
    &&& uuids.control@ != uuids.columba_identity@
    &&& uuids.data@ != uuids.columba_rx@
    &&& uuids.data@ != uuids.columba_tx@
    &&& uuids.data@ != uuids.columba_identity@
    &&& uuids.columba_rx@ != uuids.columba_tx@
    &&& uuids.columba_rx@ != uuids.columba_identity@
    &&& uuids.columba_tx@ != uuids.columba_identity@
}

/// This is the last characteristic with the UUID, where there is one.
pub open spec fn is_last_with<K>(
    found: Seq<FoundCharacteristic<K>>,
    uuid: Seq<u8>,
    characteristic: Option<K>,
) -> bool {
    match characteristic {
        Some(characteristic) => exists|i: int|
            {
                &&& 0 <= i < found.len()
                &&& (#[trigger] found[i]).uuid@ == uuid
                &&& found[i].characteristic == characteristic
                &&& forall|j: int| i < j < found.len() ==> (#[trigger] found[j]).uuid@ != uuid
            },
        None => forall|j: int| 0 <= j < found.len() ==> (#[trigger] found[j]).uuid@ != uuid,
    }
}

proof fn lemma_last_for<K>(
    uuids: ProfileUuids,
    found: Seq<FoundCharacteristic<K>>,
    role: CharacteristicRole,
    uuid: Seq<u8>,
)
    requires
        forall|other: Seq<u8>| #[trigger] uuids.role_of(other) == Some(role) <==> other == uuid,
    ensures
        is_last_with(found, uuid, profile::last_for(&uuids, found, role)),
    decreases found.len(),
{
    if found.len() > 0 {
        let earlier = found.drop_last();
        let last = found.len() - 1;
        assert(uuids.role_of(found.last().uuid@) == Some(role) <==> found[last].uuid@ == uuid);
        if found[last].uuid@ != uuid {
            lemma_last_for(uuids, earlier, role, uuid);
            match profile::last_for(&uuids, earlier, role) {
                Some(characteristic) => {
                    let i = choose|i: int|
                        {
                            &&& 0 <= i < earlier.len()
                            &&& (#[trigger] earlier[i]).uuid@ == uuid
                            &&& earlier[i].characteristic == characteristic
                            &&& forall|j: int|
                                i < j < earlier.len() ==> (#[trigger] earlier[j]).uuid@ != uuid
                        };
                    assert(found[i] == earlier[i]);
                    assert forall|j: int| i < j < found.len() implies (#[trigger] found[j]).uuid@
                        != uuid by {
                        if j < last {
                            assert(earlier[j] == found[j]);
                        }
                    }
                },
                None => {
                    assert forall|j: int| 0 <= j < found.len() implies (#[trigger] found[j]).uuid@
                        != uuid by {
                        if j < last {
                            assert(earlier[j] == found[j]);
                        }
                    }
                },
            }
        }
    }
}

/// Peers can write exactly where they speak and are notified exactly where they listen; they read
/// this host's identity and what they listen to as Columba peers, and nothing else. What holds the
/// identity is never written.
pub proof fn law_published_characteristics(role: CharacteristicRole, plan: CharacteristicPlan)
    requires
        call_ensures(profile::characteristic_plan, (role,), plan),
    ensures
        plan.write <==> role == CharacteristicRole::Control || role == CharacteristicRole::Data
            || role == CharacteristicRole::ColumbaRx,
        plan.write == plan.write_without_response,
        plan.notify <==> role == CharacteristicRole::Control || role == CharacteristicRole::Data
            || role == CharacteristicRole::ColumbaTx,
        plan.read <==> role == CharacteristicRole::ColumbaTx || role
            == CharacteristicRole::ColumbaIdentity,
        plan.readable == plan.read && plan.readable != plan.write,
        plan.holds_identity <==> role == CharacteristicRole::ColumbaIdentity,
{
}

/// A fragment is charged by its length, an empty one like one byte, and exactly where the budget
/// allows; once it is read, the budget is what it was before.
pub proof fn law_charge_is_given_back(
    inbox: &mut InboundBudget,
    fragment: &Vec<u8>,
    fits: bool,
    read: &mut InboundBudget,
)
    requires
        call_ensures(InboundBudget::charge, (inbox, fragment), fits),
        fits,
        *old(read) == *final(inbox),
        call_ensures(InboundBudget::release, (read, fragment), ()),
    ensures
        fragment@.len() > 0 ==> final(inbox).charged() == old(inbox).charged() + fragment@.len(),
        fragment@.len() == 0 ==> final(inbox).charged() == old(inbox).charged() + 1,
        final(inbox).charged() <= old(inbox).budget(),
        final(read).charged() == old(inbox).charged(),
        final(read).budget() == old(inbox).budget(),
{
}

/// A fragment that does not fit is refused and costs nothing, and only such a one is refused.
pub proof fn law_refused_fragment_costs_nothing(
    inbox: &mut InboundBudget,
    fragment: &Vec<u8>,
    fits: bool,
)
    requires
        call_ensures(InboundBudget::charge, (inbox, fragment), fits),
        !fits,
    ensures
        final(inbox).charged() == old(inbox).charged(),
        fragment@.len() > 0 ==> old(inbox).charged() + fragment@.len() > old(inbox).budget(),
        fragment@.len() == 0 ==> old(inbox).charged() + 1 > old(inbox).budget(),
{
}

/// A control message for a restored peer is kept while fewer than eight are, behind those that came
/// before; the one that is too many fails the handoff, and then nothing is kept at all.
pub proof fn law_buffered_control<C>(
    buffer: &mut RestoredCallbackBuffer<C>,
    control: C,
    kept: bool,
)
    requires
        call_ensures(RestoredCallbackBuffer::<C>::buffer_control, (buffer, control), kept),
    ensures
        kept <==> !old(buffer)@.failed && old(buffer)@.controls.len() < 8,
        final(buffer)@.failed <==> !kept,
        kept ==> final(buffer)@.controls == old(buffer)@.controls.push(control) && final(
            buffer)@.data == old(buffer)@.data,
        !kept ==> final(buffer)@.controls.len() == 0 && final(buffer)@.data.len() == 0,
        final(buffer)@.budget == old(buffer)@.budget,
{
}

/// A fragment for a restored peer is kept while the fragments cost no more than the budget, each by
/// its length and an empty one like one byte; the one that is too much fails the handoff.
pub proof fn law_buffered_fragment<C>(
    buffer: &mut RestoredCallbackBuffer<C>,
    fragment: Vec<u8>,
    kept: bool,
)
    requires
        call_ensures(RestoredCallbackBuffer::<C>::buffer_data, (buffer, fragment), kept),
    ensures
        ({
            let before = restored::total_charge(old(buffer)@.data);
            let cost: nat = if fragment@.len() == 0 {
                1
            } else {
                fragment@.len()
            };
            &&& kept <==> !old(buffer)@.failed && before + cost <= old(buffer)@.budget
            &&& final(buffer)@.failed <==> !kept
            &&& kept ==> restored::total_charge(final(buffer)@.data) == before + cost && final(
                buffer)@.data == old(buffer)@.data.push(fragment@) && final(buffer)@.controls
                == old(buffer)@.controls
            &&& !kept ==> final(buffer)@.controls.len() == 0 && final(buffer)@.data.len() == 0
            &&& final(buffer)@.budget == old(buffer)@.budget
        }),
{
    if kept {
        assert(final(buffer)@.data.drop_last() =~= old(buffer)@.data);
    }
}

/// Sixteen bytes are an identity, and it spells them; any other number of bytes is none.
pub proof fn law_identity_of_bytes(bytes: &[u8], identity: Option<BleIdentity>)
    requires
        call_ensures(BleIdentity::from_slice, (bytes,), identity),
    ensures
        identity is Some <==> bytes@.len() == 16,
        identity matches Some(identity) ==> identity.0@ == bytes@,
{
    if let Some(identity) = identity {
        assert(identity.0@.len() == 16);
    }
}

/// The inbound sessions are two for each peer and four in their handshake; what may be pending is
/// one entry for each of these and for each of the four sightings that a peer may have waiting.
pub proof fn law_capacities(max_peers: usize, sessions: usize, pending: usize)
    requires
        max_peers < 0x1000_0000,
        call_ensures(peripheral::peripheral_session_capacity, (max_peers,), sessions),
        call_ensures(peripheral::pending_l2cap_capacity, (max_peers,), pending),
    ensures
        sessions == 2 * max_peers + 4,
        pending == 6 * max_peers + 4,
{
}

/// A signal changes what it reports and nothing else. The central was powered once more; a
/// publication is what was reported of it last, unless it failed once.
pub proof fn law_manager_signal(signals: &mut ManagerSignals, signal: ManagerSignal)
    requires
        call_ensures(ManagerSignals::apply, (signals, signal), ()),
    ensures
        signal is CentralPowered ==> final(signals).central_powered_generation != old(
            signals).central_powered_generation && (old(signals).central_powered_generation
            < u64::MAX ==> final(signals).central_powered_generation == old(
            signals).central_powered_generation + 1) && (old(signals).central_powered_generation
            == u64::MAX ==> final(signals).central_powered_generation == 0),
        !(signal is CentralPowered) ==> final(signals).central_powered_generation == old(
            signals).central_powered_generation,
        signal is GattServicePublished ==> (final(signals).gatt == PublicationState::Published
            <==> old(signals).gatt != PublicationState::Failed),
        signal is GattServicePublishFailed ==> final(signals).gatt == PublicationState::Failed,
        old(signals).gatt == PublicationState::Failed ==> final(signals).gatt
            == PublicationState::Failed,
        !(signal is GattServicePublished) && !(signal is GattServicePublishFailed) ==> final(
            signals).gatt == old(signals).gatt,
        signal matches ManagerSignal::L2capPublished(psm) ==> (final(signals).l2cap
            == L2capPublicationState::Published(psm) <==> old(signals).l2cap
            != L2capPublicationState::Failed),
        signal is L2capPublishFailed ==> final(signals).l2cap == L2capPublicationState::Failed,
        old(signals).l2cap == L2capPublicationState::Failed ==> final(signals).l2cap
            == L2capPublicationState::Failed,
        !(signal is L2capPublished) && !(signal is L2capPublishFailed) ==> final(signals).l2cap
            == old(signals).l2cap,
{
}

/// A startup is complete exactly where the central is powered, the service is published and the
/// listener is published on a number that is a PSM. It has failed exactly where a publication has,
/// or where the number of a startup that is otherwise complete is none; else it goes on.
pub proof fn law_manager_readiness<S, F: Fn(u16) -> Option<S>>(
    signals: ManagerSignals,
    psm: F,
    read: spec_fn(u16) -> Option<S>,
    ready: Result<Option<S>, MacosBleError>,
)
    requires
        call_ensures(signals::manager_readiness::<S, F>, (signals, psm), ready),
        forall|raw: u16, answer: Option<S>| #[trigger]
            call_ensures(psm, (raw,), answer) ==> answer == read(raw),
    ensures
        ({
            let failed = signals.gatt == PublicationState::Failed || signals.l2cap
                == L2capPublicationState::Failed;
            let complete = signals.central_powered_generation != 0 && signals.gatt
                == PublicationState::Published && signals.l2cap is Published;
            &&& ready matches Err(error) ==> error == MacosBleError::PublishFailed
            &&& failed ==> ready is Err
            &&& !failed && !complete ==> ready == Ok::<Option<S>, MacosBleError>(None)
            &&& !failed && complete ==> match read(signals.l2cap->Published_0) {
                Some(psm) => ready == Ok::<Option<S>, MacosBleError>(Some(psm)),
                None => ready is Err,
            }
        }),
{
}

/// An inspection has a number exactly where it is not the one that stands for none, it is refused
/// exactly where the lane was found taken, and it takes only an answer to its own number.
pub proof fn law_inspection_decisions<R>(
    raw: u64,
    id: Option<u64>,
    found: Result<bool, bool>,
    claimed: Result<(), InspectionError>,
    response: InspectionResponse<R>,
    own: u64,
    value: Option<InspectionValue<R>>,
)
    requires
        call_ensures(inspection::inspection_id, (raw,), id),
        call_ensures(inspection::claim_result, (found,), claimed),
        call_ensures(inspection::answer_to::<R>, (response, own), value),
    ensures
        id is Some <==> raw != u64::MAX,
        id matches Some(id) ==> id == raw,
        claimed is Ok <==> found is Ok,
        claimed matches Err(error) ==> error == InspectionError::Busy,
        value is Some <==> response.id == own,
        value matches Some(value) ==> value == response.value,
{
}

/// A scan is started, restarted or stopped only where that is wanted and would change something,
/// and nothing is started with the radio off. Nobody asks for what is there.
pub proof fn law_scan_reconciliation(
    enabled: bool,
    radio_enabled: bool,
    is_scanning: bool,
    restart: bool,
    asked: ScanOp,
)
    requires
        call_ensures(
            radio::scanning_step,
            (enabled, radio_enabled, is_scanning, restart),
            asked,
        ),
    ensures
        asked == ScanOp::Start <==> enabled && radio_enabled && !is_scanning,
        asked == ScanOp::Restart <==> enabled && radio_enabled && is_scanning && restart,
        asked == ScanOp::Stop <==> !enabled && is_scanning,
        asked == ScanOp::Keep <==> (enabled && !radio_enabled) || (!enabled && !is_scanning) || (
        enabled && radio_enabled && is_scanning && !restart),
{
}

/// Advertising is started or stopped only where that is wanted and its manager says that it would
/// change something, and is not started with the radio off.
pub proof fn law_advertising_reconciliation(
    enabled: bool,
    radio_enabled: bool,
    is_advertising: Option<bool>,
    asked: AdvertisingOp,
)
    requires
        call_ensures(radio::advertising_step, (enabled, radio_enabled, is_advertising), asked),
    ensures
        asked == AdvertisingOp::Start <==> enabled && radio_enabled && is_advertising == Some(
            false,
        ),
        asked == AdvertisingOp::Stop <==> !enabled && is_advertising == Some(true),
{
}

/// A scan that saw a discovery since is renewed, one that saw none has expired, and one that is not
/// wanted has no lease.
pub proof fn law_scan_lease(enabled: bool, activity: bool, lease: ScanLease)
    requires
        call_ensures(radio::scan_lease, (enabled, activity), lease),
    ensures
        lease is Inactive <==> !enabled,
        lease is Renewed <==> enabled && activity,
        lease is Expired <==> enabled && !activity,
{
}

/// An inspection that has its turn asks its own question under a number, takes the answer to that
/// number and no other, and leaves the turn when it ends.
pub proof fn law_inspection<'a, R>(
    turn: &'a InspectionTurn,
    query: InspectionQuery,
    began: Result<Inspection<'a>, InspectionError>,
    inspection: &mut Inspection<'a>,
    request: Option<InspectionRequest>,
    response: InspectionResponse<R>,
    answer: Option<InspectionValue<R>>,
)
    requires
        call_ensures(Inspection::<'a>::begin, (turn, query), began),
        began matches Ok(begun) && *old(inspection) == begun,
        call_ensures(Inspection::<'a>::request, (inspection,), request),
        call_ensures(
            Inspection::<'a>::answer::<R>,
            (&*final(inspection), response),
            answer,
        ),
        call_ensures(Inspection::<'a>::finish, (*final(inspection),), ()),
    ensures
        turn.saw(LaneEvent::Claimed),
        turn.saw(LaneEvent::Released),
        request matches Some(request) ==> {
            &&& request.query == query
            &&& request.id != u64::MAX
            &&& turn.saw(LaneEvent::Counted(request.id))
            &&& answer is Some <==> response.id == request.id
            &&& answer matches Some(value) ==> value == response.value
        },
        request is None ==> answer is None && turn.saw(LaneEvent::Counted(u64::MAX)),
{
}

/// An inspection that does not get its turn is told that the lane is busy, because it was taken.
pub proof fn law_busy_inspection<'a>(
    turn: &'a InspectionTurn,
    query: InspectionQuery,
    began: Result<Inspection<'a>, InspectionError>,
)
    requires
        call_ensures(Inspection::<'a>::begin, (turn, query), began),
        began is Err,
    ensures
        turn.saw(LaneEvent::Refused),
        began matches Err(error) && error == InspectionError::Busy,
{
}

/// The observer gets every announce that was accepted, as it was written down, and nothing else.
pub proof fn law_accepted_announce<'a, A, F: FnOnce(AnnounceObservation<'a>) -> A>(
    observer: Option<F>,
    journaled: Journaled<'a>,
    made: Option<A>,
)
    requires
        call_ensures(
            announce::notify_accepted_announce::<'a, A, F>,
            (observer, &journaled),
            made,
        ),
    ensures
        made is Some <==> observer is Some && journaled is AnnounceHeard,
        observer matches Some(observer) ==> (journaled matches Journaled::AnnounceHeard {
            observation,
        } ==> (made matches Some(made) && call_ensures(observer, (observation,), made))),
{
}

/// Two identifiers are taken exactly where both say something and not the same, and then each is
/// kept as it was given. Otherwise it is said what is wrong with them.
pub proof fn law_restoration_identifiers(
    central: &str,
    peripheral: &str,
    made: Result<CoreBluetoothRestorationIdentifiers, CoreBluetoothRestorationIdentifiersError>,
)
    requires
        call_ensures(CoreBluetoothRestorationIdentifiers::new, (central, peripheral), made),
    ensures
        made is Ok <==> central@.len() > 0 && peripheral@.len() > 0 && central@ != peripheral@,
        made matches Ok(identifiers) ==> identifiers@.central == central@
            && identifiers@.peripheral == peripheral@,
        made matches Err(error) ==> {
            &&& error is EmptyCentral <==> central@.len() == 0
            &&& error is EmptyPeripheral <==> central@.len() > 0 && peripheral@.len() == 0
            &&& error is Duplicate <==> central@.len() > 0 && central@ == peripheral@
        },
{
}

/// Every report of the managers is the signal of its name, and is the only one that is added.
pub proof fn law_manager_reports(
    powered: &mut ManagerSignalSender,
    published: &mut ManagerSignalSender,
    publish_failed: &mut ManagerSignalSender,
    listening: &mut ManagerSignalSender,
    listen_failed: &mut ManagerSignalSender,
    psm: u16,
)
    requires
        call_ensures(ManagerSignalSender::central_powered, (powered,), ()),
        call_ensures(ManagerSignalSender::gatt_service_published, (published,), ()),
        call_ensures(ManagerSignalSender::gatt_service_publish_failed, (publish_failed,), ()),
        call_ensures(ManagerSignalSender::l2cap_published, (listening, psm), ()),
        call_ensures(ManagerSignalSender::l2cap_publish_failed, (listen_failed,), ()),
    ensures
        reports_also(*old(powered), *final(powered), ManagerSignal::CentralPowered),
        reports_also(*old(published), *final(published), ManagerSignal::GattServicePublished),
        reports_also(
            *old(publish_failed),
            *final(publish_failed),
            ManagerSignal::GattServicePublishFailed,
        ),
        reports_also(*old(listening), *final(listening), ManagerSignal::L2capPublished(psm)),
        reports_also(*old(listen_failed), *final(listen_failed), ManagerSignal::L2capPublishFailed),
{
}

/// The sender has reported the signal since, and it was applied to what is watched.
pub open spec fn reports_also(
    earlier: ManagerSignalSender,
    sender: ManagerSignalSender,
    signal: ManagerSignal,
) -> bool {
    &&& sender.reports() == earlier.reports().push(signal)
    &&& sender.applied(signal)
    &&& sender.same_handle(earlier)
}

/// A short UUID is two bytes, the more significant one first; a long one is its sixteen bytes.
pub proof fn law_uuid_bytes(uuid: BleUuid, bytes: Vec<u8>)
    requires
        call_ensures(BleUuid::to_bytes, (&uuid,), bytes),
    ensures
        uuid matches BleUuid::Bit16(short) ==> bytes@.len() == 2 && bytes@[0] * 256 + bytes@[1]
            == short,
        uuid matches BleUuid::Bit128(octets) ==> bytes@ == octets@,
{
}

/// Peers have the same synthetic address exactly where the first six bytes of their identities are
/// the same.
pub proof fn law_shared_address(
    one: CoreBluetoothPeerId,
    other: CoreBluetoothPeerId,
    address_of_one: BleAddress,
    address_of_other: BleAddress,
)
    requires
        call_ensures(CoreBluetoothPeerId::address, (one,), address_of_one),
        call_ensures(CoreBluetoothPeerId::address, (other,), address_of_other),
    ensures
        address_of_one == address_of_other <==> forall|i: int|
            0 <= i < 6 ==> one.0@[i] == other.0@[i],
        forall|i: int| 0 <= i < 6 ==> #[trigger] address_of_one.octets@[i] == one.0@[i],
{
    assert(address_of_one.octets@ == one.0@.take(6));
    assert(address_of_other.octets@ == other.0@.take(6));
    if address_of_one == address_of_other {
        assert forall|i: int| 0 <= i < 6 implies one.0@[i] == other.0@[i] by {
            assert(one.0@.take(6)[i] == other.0@.take(6)[i]);
        }
    }
    if forall|i: int| 0 <= i < 6 ==> one.0@[i] == other.0@[i] {
        assert(one.0@.take(6) =~= other.0@.take(6));
        assert(address_of_one.octets =~= address_of_other.octets);
    }
}

/// A peer that was met without the service is forgotten for another one only where as many are
/// remembered as may be, and then the one that was met longest ago is.
pub proof fn law_misses_of_others_stay(
    guard: &mut DiscoveryGuard,
    peer_id: CoreBluetoothPeerId,
    now: u64,
    i: int,
)
    requires
        old(guard).wf(),
        call_ensures(DiscoveryGuard::record_service_miss, (guard, peer_id, now), ()),
        0 <= i < old(guard)@.misses.len(),
        old(guard)@.misses[i].peer_id != peer_id,
        i > 0 || old(guard)@.misses.len() < 256,
    ensures
        final(guard)@.misses.contains(old(guard)@.misses[i]),
        final(guard)@.misses.last().peer_id == peer_id && final(guard)@.misses.last().at == now,
        final(guard)@.misses.len() <= 256,
{
    guard.lemma_wf();
    let before = old(guard)@.misses;
    let after = final(guard)@.misses;
    old(guard)@.law_miss(peer_id, now, now);
    let p = discovery::miss_of(peer_id);
    search::lemma_first_where(before, p);
    let others = search::without(before, old(guard)@.miss(peer_id));
    let i0 = match old(guard)@.miss(peer_id) {
        Some(k) => {
            assert(p(before[k]));
            if i < k {
                i
            } else {
                i - 1
            }
        },
        None => i,
    };
    assert(others[i0] == before[i]);
    if others.len() >= 256 {
        assert(after[i0 - 1] == before[i]);
    } else {
        assert(after[i0] == before[i]);
    }
}

} // verus!
