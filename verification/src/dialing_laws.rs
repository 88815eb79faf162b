//! What holds of a peer from its sighting to its session, and of everyone when the radio goes off.

use crate::central;
use crate::central::{
    BeginStep, CentralModel, CentralState, DialStep, Finished, RadioShutdown, Reaped,
};
use crate::central_events;
use crate::central_events::{
    ConnectStep, DiscoverAction, Discovery, RestoreAction, RestoredPeripheral,
};
use crate::central_laws;
use crate::dial::{DialFacts, DialRejection, DialStart, PeripheralLinkState};
use crate::handoff_laws;
use crate::ingress;
use crate::ingress::GattInbox;
use crate::peer::{BleAddress, CoreBluetoothPeerId, Sighting};
use crate::registry::CentralPeerRegistry;
use crate::registry_model;
use crate::registry_model::{
    CentralDialCandidate, CentralPeripheral, CentralPeripheralState, RegistryModel,
    RestoredAdmission, RestoredPhase,
};
use crate::registry_laws;
use crate::restored::CallbackModel;
use crate::search;
use crate::session::{CentralPeerSession, CompletionDelivery, DialCompletion};
use std::collections::VecDeque;
use vstd::prelude::*;

verus! {

/// A peer that is observed and registered has a sighting waiting, with the handle and the signal of
/// that observation, whatever was handed out of it before.
pub proof fn law_observed_peer_is_sighted_again<P, C>(
    registry: &mut CentralPeerRegistry<P, C>,
    peer_id: CoreBluetoothPeerId,
    peripheral: P,
    rssi: Option<i8>,
    registered: bool,
)
    requires
        old(registry).wf(),
        call_ensures(
            CentralPeerRegistry::<P, C>::observe,
            (registry, peer_id, peripheral, rssi),
            registered,
        ),
    ensures
        registered ==> exists|i: int|
            {
                &&& 0 <= i < final(registry)@.peripherals.len()
                &&& (#[trigger] final(registry)@.peripherals[i]).peer_id == peer_id
                &&& final(registry)@.peripherals[i].address == peer_id.spec_address()
                &&& final(registry)@.peripherals[i].pending_sighting
                &&& final(registry)@.peripherals[i].rssi == rssi
                &&& final(registry)@.peripherals[i].peripheral == peripheral
            },
        !registered ==> final(registry)@ == old(registry)@ && {
            ||| exists|i: int|
                0 <= i < old(registry)@.peripherals.len() && (
                #[trigger] old(registry)@.peripherals[i]).address == peer_id.spec_address()
                    && old(registry)@.peripherals[i].state != CentralPeripheralState::Observed
            ||| old(registry)@.peripherals.len() >= old(registry)@.peripheral_capacity
        },
{
    registry.lemma_wf();
    let before = old(registry)@;
    let next = final(registry)@;
    before.law_observation_waits(peer_id, peripheral, rssi);
    before.law_room_is_owed(peer_id.spec_address());
    if registered {
        let i = choose|i: int|
            0 <= i < next.peripherals.len() && (#[trigger] next.peripherals[i]).peer_id == peer_id;
        assert(next.peripherals[i].pending_sighting);
    } else if exists|i: int| #[trigger]
        before.stands_at(i, peer_id.spec_address()) && before.owns(i) {
        let i = choose|i: int| #[trigger]
            before.stands_at(i, peer_id.spec_address()) && before.owns(i);
        assert(before.peripherals[i].address == peer_id.spec_address());
    }
}

/// A sighting is handed out while one waits, the longest waiting first: it names the address and
/// the signal of its peer, and waits no more. Whether another waits is said as it is.
pub proof fn law_sighting_is_handed_out<P, C, K, D, T>(
    state: &mut CentralState<P, C, K, D, T>,
    sighting: Option<Sighting>,
    more: bool,
)
    requires
        old(state).wf(),
        call_ensures(
            CentralState::<P, C, K, D, T>::pop_sighting,
            (state, true),
            (sighting, more),
        ),
    ensures
        ({
            let before = old(state)@.registry.peripherals;
            let after = final(state)@.registry.peripherals;
            &&& final(state)@.sessions == old(state)@.sessions
            &&& after.len() == before.len()
            &&& match sighting {
                None => after == before && forall|i: int|
                    0 <= i < before.len() ==> !(#[trigger] before[i]).pending_sighting,
                Some(sighting) => exists|i: int|
                    {
                        &&& 0 <= i < before.len()
                        &&& (#[trigger] before[i]).pending_sighting
                        &&& sighting.address == before[i].address
                        &&& sighting.rssi == before[i].rssi
                        &&& !after[i].pending_sighting
                        &&& forall|j: int|
                            0 <= j < i ==> !(#[trigger] before[j]).pending_sighting
                        &&& forall|j: int|
                            0 <= j < before.len() && j != i ==> #[trigger] after[j] == before[j]
                    },
            }
            &&& more <==> exists|i: int|
                0 <= i < after.len() && (#[trigger] after[i]).pending_sighting
        }),
{
    let before = old(state)@.registry;
    let p = registry_model::is_pending::<P>();
    search::lemma_first_where(before.peripherals, p);
    match search::first_where(before.peripherals, p) {
        Some(i) => {
            assert(p(before.peripherals[i]));
            assert forall|j: int| 0 <= j < i implies !(
            #[trigger] before.peripherals[j]).pending_sighting by {
                assert(!p(before.peripherals[j]));
            }
        },
        None => {
            assert forall|j: int| 0 <= j < before.peripherals.len() implies !(
            #[trigger] before.peripherals[j]).pending_sighting by {
                assert(!p(before.peripherals[j]));
            }
        },
    }
}

/// Restored peers are offered to the host in the order of their admission, each once.
pub proof fn law_restored_peer_is_offered<P, C, K, D, T>(
    state: &mut CentralState<P, C, K, D, T>,
    offered: Option<CoreBluetoothPeerId>,
)
    requires
        call_ensures(CentralState::<P, C, K, D, T>::offer_restored, (state, true), offered),
    ensures
        ({
            let before = old(state)@.registry.restored;
            let after = final(state)@.registry.restored;
            &&& final(state)@.sessions == old(state)@.sessions
            &&& final(state)@.registry.peripherals == old(state)@.registry.peripherals
            &&& after.len() == before.len()
            &&& match offered {
                None => after == before && forall|k: int|
                    0 <= k < before.len() ==> (#[trigger] before[k]).phase != RestoredPhase::Queued,
                Some(peer_id) => exists|k: int|
                    {
                        &&& 0 <= k < before.len()
                        &&& (#[trigger] before[k]).peer_id == peer_id
                        &&& before[k].phase == RestoredPhase::Queued
                        &&& after[k].phase == RestoredPhase::Offered
                        &&& after[k].peer_id == peer_id
                        &&& after[k].callbacks == before[k].callbacks
                        &&& forall|j: int|
                            0 <= j < k ==> (#[trigger] before[j]).phase != RestoredPhase::Queued
                        &&& forall|j: int|
                            0 <= j < before.len() && j != k ==> #[trigger] after[j] == before[j]
                    },
            }
        }),
{
    let before = old(state)@.registry;
    let p = registry_model::is_queued::<C>();
    search::lemma_first_where(before.restored, p);
    match search::first_where(before.restored, p) {
        Some(k) => {
            assert(p(before.restored[k]));
            assert forall|j: int| 0 <= j < k implies (#[trigger] before.restored[j]).phase
                != RestoredPhase::Queued by {
                assert(!p(before.restored[j]));
            }
        },
        None => {
            assert forall|j: int| 0 <= j < before.restored.len() implies (
            #[trigger] before.restored[j]).phase != RestoredPhase::Queued by {
                assert(!p(before.restored[j]));
            }
        },
    }
}

/// A dial of an address gets the peripheral that is registered there, where it is only observed or
/// restored and offered, and then nobody else gets it. It is told apart whether the address is
/// unknown or taken.
pub proof fn law_claim<P: Clone, C, K, D: GattInbox, T>(
    state: &mut CentralState<P, C, K, D, T>,
    address: BleAddress,
    now: u64,
    reaped: Reaped<P, K>,
    candidate: CentralDialCandidate<P>,
)
    requires
        old(state).wf(),
        call_ensures(
            CentralState::<P, C, K, D, T>::claim,
            (state, true, address, now),
            (reaped, candidate),
        ),
    ensures
        ({
            let mid = old(state)@.reaped(reaped.closed@, now).state.registry;
            let after = final(state)@.registry;
            match candidate {
                CentralDialCandidate::Missing => after == mid && forall|i: int|
                    0 <= i < mid.peripherals.len() ==> (#[trigger] mid.peripherals[i]).address
                        != address,
                CentralDialCandidate::Busy => after == mid && exists|i: int|
                    0 <= i < mid.peripherals.len() && (#[trigger] mid.peripherals[i]).address
                        == address && mid.peripherals[i].state
                        != CentralPeripheralState::Observed,
                CentralDialCandidate::Ready { peer_id, peripheral, rssi, restored } => exists|
                    i: int,
                |
                    {
                        let entry = mid.peripherals[i];
                        &&& 0 <= i < mid.peripherals.len()
                        &&& (#[trigger] mid.peripherals[i]).address == address
                        &&& entry.peer_id == peer_id
                        &&& cloned(entry.peripheral, peripheral)
                        &&& rssi == entry.rssi
                        &&& restored <==> entry.state == CentralPeripheralState::Restored
                        &&& !restored <==> entry.state == CentralPeripheralState::Observed
                        &&& after.peripherals[i].state == CentralPeripheralState::Dialing
                        &&& after.peripherals[i].peer_id == peer_id
                        &&& !after.peripherals[i].pending_sighting
                    },
            }
        }),
{
    state.registry.lemma_wf();
    state.guard.lemma_wf();
    old(state)@.law_reaping(reaped.closed@, now);
    let mid = old(state)@.reaped(reaped.closed@, now).state.registry;
    mid.law_claim_takes_the_offered(address);
    mid.lemma_found(address);
    match mid.slot(address) {
        Some(i) => {
            assert(mid.stands_at(i, address));
            assert(mid.peripherals[i].address == address);
        },
        None => {
            assert forall|i: int| 0 <= i < mid.peripherals.len() implies (
            #[trigger] mid.peripherals[i]).address != address by {
                assert(!mid.stands_at(i, address));
            }
        },
    }
}

/// The dialer is told that it was turned down, and why.
pub open spec fn tells_rejection<C, K, D, T>(
    session: CentralPeerSession<C, K, D, T>,
    told: Option<CompletionDelivery<K>>,
    why: DialRejection,
) -> bool {
    &&& told is Some <==> session.completion_tx is Some
    &&& told matches Some(told) ==> Some(told.completion_tx) == session.completion_tx
        && told.completion == DialCompletion::<K>::Rejected(why)
}

/// The dialer is told that its dial failed.
pub open spec fn tells_dialer<C, K, D, T>(
    session: CentralPeerSession<C, K, D, T>,
    told: Option<CompletionDelivery<K>>,
) -> bool {
    &&& told is Some <==> session.completion_tx is Some
    &&& told matches Some(told) ==> Some(told.completion_tx) == session.completion_tx
        && told.completion is Failed
}

/// A session begins only with the radio on, for a peer that is being dialed and has none, and then
/// it is there and its peer is active. In every other case the dialer is told why: the radio is
/// off, there is a session already, which stays, or the dial has failed. A peer whose session does
/// not begin is forgotten and its connection cancelled, unless it has a session.
pub proof fn law_begin_session<P, C, K, D: GattInbox, T>(
    state: &mut CentralState<P, C, K, D, T>,
    radio_enabled: bool,
    peer_id: CoreBluetoothPeerId,
    session: CentralPeerSession<C, K, D, T>,
    now: u64,
    begin: BeginStep<P, K>,
)
    requires
        old(state).wf(),
        call_ensures(
            CentralState::<P, C, K, D, T>::begin_session,
            (state, radio_enabled, peer_id, session, now),
            begin,
        ),
    ensures
        begins(begin, old(state)@, final(state)@, radio_enabled, peer_id, session, now),
{
    state.registry.lemma_wf();
    state.guard.lemma_wf();
    lemma_begins(begin, old(state)@, final(state)@, radio_enabled, peer_id, session, now);
}

/// The session is under way: it holds its dialer and its profile, and its peer, which was being
/// dialed, is active and waits as a restored one no more.
pub open spec fn is_under_way<P, C, K, D: GattInbox, T>(
    before: CentralModel<P, C, K, D, T>,
    after: CentralModel<P, C, K, D, T>,
    peer_id: CoreBluetoothPeerId,
    session: CentralPeerSession<C, K, D, T>,
) -> bool {
    &&& after.sessions.dom().contains(peer_id)
    &&& after.sessions[peer_id].completion_tx == session.completion_tx
    &&& after.sessions[peer_id].profile == session.profile
    &&& exists|i: int|
        0 <= i < before.registry.peripherals.len() && (
        #[trigger] before.registry.peripherals[i]).peer_id == peer_id
            && before.registry.peripherals[i].state == CentralPeripheralState::Dialing
            && after.registry.peripherals[i].peer_id == peer_id
            && after.registry.peripherals[i].state == CentralPeripheralState::Active
    &&& forall|k: int|
        0 <= k < after.registry.restored.len() ==> (#[trigger] after.registry.restored[k]).peer_id
            != peer_id
}

/// Nothing is registered of the peer.
pub open spec fn is_forgotten<P, C>(
    registry: RegistryModel<P, C>,
    peer_id: CoreBluetoothPeerId,
) -> bool {
    &&& forall|i: int|
        0 <= i < registry.peripherals.len() ==> (#[trigger] registry.peripherals[i]).peer_id
            != peer_id
    &&& forall|k: int|
        0 <= k < registry.restored.len() ==> (#[trigger] registry.restored[k]).peer_id != peer_id
}

/// The peer is being dialed, and nothing waits for it from a restoration.
pub open spec fn is_plainly_dialed<P, C>(
    registry: RegistryModel<P, C>,
    peer_id: CoreBluetoothPeerId,
) -> bool {
    &&& exists|i: int|
        0 <= i < registry.peripherals.len() && (#[trigger] registry.peripherals[i]).peer_id
            == peer_id && registry.peripherals[i].state == CentralPeripheralState::Dialing
    &&& forall|k: int|
        0 <= k < registry.restored.len() ==> (#[trigger] registry.restored[k]).peer_id != peer_id
}

/// The peer is active, as it was before it was dialed, and nothing else has changed.
pub open spec fn is_active_again<P, C>(
    before: RegistryModel<P, C>,
    after: RegistryModel<P, C>,
    peer_id: CoreBluetoothPeerId,
) -> bool {
    &&& after.restored == before.restored
    &&& after.peripherals.len() == before.peripherals.len()
    &&& forall|i: int|
        0 <= i < before.peripherals.len() ==> #[trigger] after.peripherals[i]
            == if before.peripherals[i].peer_id == peer_id {
            CentralPeripheral {
                state: CentralPeripheralState::Active,
                ..before.peripherals[i]
            }
        } else {
            before.peripherals[i]
        }
}

/// What the beginning of a session comes to.
pub open spec fn begins<P, C, K, D: GattInbox, T>(
    begin: BeginStep<P, K>,
    before: CentralModel<P, C, K, D, T>,
    after: CentralModel<P, C, K, D, T>,
    radio_enabled: bool,
    peer_id: CoreBluetoothPeerId,
    session: CentralPeerSession<C, K, D, T>,
    now: u64,
) -> bool {
    let mid = if radio_enabled {
        before.reaped(begin.reaped.closed@, now).state
    } else {
        before
    };
    let had_session = radio_enabled && mid.sessions.dom().contains(peer_id);
    &&& central_laws::keeps_other_sessions(mid, after, peer_id)
    &&& begin.began ==> {
        &&& radio_enabled && !had_session
        &&& begin.delivery is None && begin.cancel is None
        &&& is_under_way(mid, after, peer_id, session)
    }
    &&& !begin.began ==> after.sessions == mid.sessions
    &&& !begin.began && had_session ==> {
        &&& tells_rejection(session, begin.delivery, DialRejection::ExistingCentralSession)
        &&& begin.cancel is None
        &&& is_active_again(mid.registry, after.registry, peer_id)
    }
    &&& !begin.began && !had_session ==> {
        &&& if radio_enabled {
            tells_dialer(session, begin.delivery)
        } else {
            tells_rejection(session, begin.delivery, DialRejection::RadioOff)
        }
        &&& central_laws::is_handle(mid.registry, peer_id, begin.cancel)
        &&& is_forgotten(after.registry, peer_id)
    }
    &&& radio_enabled && !had_session && is_plainly_dialed(mid.registry, peer_id) ==> begin.began
}

proof fn lemma_begins<P, C, K, D: GattInbox, T>(
    begin: BeginStep<P, K>,
    before: CentralModel<P, C, K, D, T>,
    after: CentralModel<P, C, K, D, T>,
    radio_enabled: bool,
    peer_id: CoreBluetoothPeerId,
    session: CentralPeerSession<C, K, D, T>,
    now: u64,
)
    requires
        before.wf(),
        begin.of(before, after, radio_enabled, peer_id, session, now),
    ensures
        begins(begin, before, after, radio_enabled, peer_id, session, now),
{
    let mid = if radio_enabled {
        before.reaped(begin.reaped.closed@, now).state
    } else {
        before
    };
    before.law_reaping(begin.reaped.closed@, now);
    let registry = mid.registry;
    registry.lemma_not_found(peer_id);
    registry.law_beginning_is_exact(peer_id);
    let had_session = radio_enabled && mid.sessions.dom().contains(peer_id);
    if begin.began {
        let i = choose|i: int|
            0 <= i < registry.peripherals.len() && (#[trigger] registry.peripherals[i]).peer_id
                == peer_id && registry.peripherals[i].state == CentralPeripheralState::Dialing;
        assert(after.registry.peripherals[i].state == CentralPeripheralState::Active);
        assert(after.registry.peripherals[i].peer_id == peer_id);
        assert(is_under_way(mid, after, peer_id, session));
    } else if had_session {
        assert forall|i: int|
            0 <= i < registry.peripherals.len() && (#[trigger] registry.peripherals[i]).peer_id
                == peer_id implies registry.entry(peer_id) == Some(i) by {
            registry.lemma_entry_is(i);
        }
        assert(is_active_again(registry, after.registry, peer_id));
    } else {
        assert(is_forgotten(after.registry, peer_id)) by {
            if radio_enabled {
                registry.law_begin_keeps_wf(peer_id);
                registry.begun(peer_id).law_removal_is_exact(peer_id);
            } else {
                registry.law_removal_is_exact(peer_id);
            }
        }
        assert(central_laws::is_handle(registry, peer_id, begin.cancel)) by {
            registry.law_removal_is_exact(peer_id);
        }
    }
    assert(radio_enabled && !had_session && is_plainly_dialed(registry, peer_id) ==> begin.began);
}

/// A dial never reaches a peer that has dialed this host, nor one whose restored connection cannot
/// be resumed, nor one that is connected system-wide on behalf of somebody else; its dialer is told
/// which it is. Otherwise its session begins, and only a session that began asks for anything: for
/// the services of a connection that is up, for nothing of one that is on its way, and for a new
/// connection otherwise. What is connected system-wide never stands in the way of a restored peer.
pub proof fn law_dial<P, C, K, D: GattInbox, T>(
    state: &mut CentralState<P, C, K, D, T>,
    radio_enabled: bool,
    peer_id: CoreBluetoothPeerId,
    session: CentralPeerSession<C, K, D, T>,
    facts: DialFacts,
    now: u64,
    step: DialStep<P, K>,
)
    requires
        old(state).wf(),
        call_ensures(
            CentralState::<P, C, K, D, T>::begin_dial,
            (state, radio_enabled, peer_id, session, facts, now),
            step,
        ),
    ensures
        ({
            let inbound = facts.target_has_inbound_session;
            let unresumable = facts.restored_connection && (facts.link_state
                == PeripheralLinkState::Disconnecting || facts.link_state
                == PeripheralLinkState::Unknown);
            let elsewhere = !facts.restored_connection && facts.system_connected;
            if inbound || unresumable || elsewhere {
                &&& !step.attach && step.start is None && !step.begin.began
                &&& step.begin.cancel is None
                &&& step.cancel_dialed <==> inbound && facts.restored_connection
                &&& tells_rejection(
                    session,
                    step.begin.delivery,
                    if inbound {
                        DialRejection::YieldToInboundSession
                    } else if unresumable {
                        DialRejection::RestoredConnectionUnavailable
                    } else {
                        DialRejection::YieldToSystemConnection
                    },
                )
                &&& final(state)@.sessions == old(state)@.sessions
                &&& central_laws::unregisters(
                    old(state)@.registry,
                    final(state)@.registry,
                    peer_id,
                )
            } else {
                &&& step.attach && !step.cancel_dialed
                &&& begins(
                    step.begin,
                    old(state)@,
                    final(state)@,
                    radio_enabled,
                    peer_id,
                    session,
                    now,
                )
                &&& step.start is Some <==> step.begin.began
                &&& step.start matches Some(start) ==> {
                    &&& start == DialStart::Discover <==> facts.restored_connection
                        && facts.link_state == PeripheralLinkState::Connected
                    &&& start == DialStart::AwaitConnection <==> facts.restored_connection
                        && facts.link_state == PeripheralLinkState::Connecting
                }
            }
        }),
{
    state.registry.lemma_wf();
    state.guard.lemma_wf();
    old(state)@.registry.law_removal_is_exact(peer_id);
    if step.attach {
        lemma_begins(
            step.begin,
            old(state)@,
            final(state)@,
            radio_enabled,
            peer_id,
            session,
            now,
        );
    }
}

/// When the radio goes off, everyone who waits for a dial is told that it failed, each once, every
/// owned connection is cancelled once, and nothing is left. When it goes on, nothing happens.
pub proof fn law_radio_switch<P, C, K, D, T>(
    state: &mut CentralState<P, C, K, D, T>,
    enabled: bool,
    shutdown: RadioShutdown<P, K>,
)
    requires
        old(state).wf(),
        call_ensures(
            CentralState::<P, C, K, D, T>::set_radio_enabled,
            (state, enabled),
            shutdown,
        ),
    ensures
        enabled ==> final(state)@ == old(state)@ && shutdown.deliveries@.len() == 0
            && shutdown.cancel@.len() == 0,
        !enabled ==> {
            &&& final(state)@.sessions.dom() =~= Set::<CoreBluetoothPeerId>::empty()
            &&& final(state)@.registry.peripherals.len() == 0
            &&& final(state)@.registry.restored.len() == 0
            &&& final(state)@.guard.misses.len() == 0
            &&& final(state)@.guard.cancellations.dom() =~= Set::<CoreBluetoothPeerId>::empty()
            &&& final(state)@.recovery == old(state)@.recovery
            &&& exists|at: Seq<int>| #[trigger]
                registry_laws::picks_owned(
                    old(state)@.registry.peripherals,
                    at,
                    shutdown.cancel@,
                )
            &&& forall|i: int|
                0 <= i < shutdown.deliveries@.len() ==> (
                #[trigger] shutdown.deliveries@[i]).completion is Failed
            &&& exists|peers: Seq<CoreBluetoothPeerId>| #[trigger]
                tells_each_once(old(state)@, peers, shutdown.deliveries@)
        },
{
    if !enabled {
        old(state)@.registry.law_drained_handles();
        let waiting = lemma_failures(old(state)@, shutdown.peers@);
        assert forall|peer_id: CoreBluetoothPeerId| #[trigger]
            old(state)@.sessions.dom().contains(peer_id)
                && old(state)@.sessions[peer_id].completion_tx is Some implies waiting.contains(
            peer_id,
        ) by {
            assert(shutdown.peers@.to_set().contains(peer_id));
            assert(shutdown.peers@.contains(peer_id));
        }
        assert(tells_each_once(old(state)@, waiting, shutdown.deliveries@));
        assert forall|i: int| 0 <= i < shutdown.deliveries@.len() implies (
        #[trigger] shutdown.deliveries@[i]).completion is Failed by {
            let peer_id = waiting[i];
        }
        assert(registry_laws::picks_owned(
            old(state)@.registry.peripherals,
            choose|at: Seq<int>| #[trigger]
                registry_laws::picks_owned(
                    old(state)@.registry.peripherals,
                    at,
                    old(state)@.registry.owned(),
                ),
            shutdown.cancel@,
        ));
    }
}

/// The peers are those whose dialers still wait, each once, and the deliveries go to these dialers.
pub open spec fn tells_each_once<P, C, K, D, T>(
    state: CentralModel<P, C, K, D, T>,
    peers: Seq<CoreBluetoothPeerId>,
    deliveries: Seq<CompletionDelivery<K>>,
) -> bool {
    &&& peers.no_duplicates()
    &&& peers.len() == deliveries.len()
    &&& forall|i: int|
        0 <= i < peers.len() ==> state.sessions.dom().contains(#[trigger] peers[i])
            && state.sessions[peers[i]].completion_tx == Some(deliveries[i].completion_tx)
    &&& forall|peer_id: CoreBluetoothPeerId| #[trigger]
        state.sessions.dom().contains(peer_id) && state.sessions[peer_id].completion_tx is Some
            ==> peers.contains(peer_id)
}

/// Those of the peers whose dialers still wait.
proof fn lemma_failures<P, C, K, D, T>(
    state: CentralModel<P, C, K, D, T>,
    peers: Seq<CoreBluetoothPeerId>,
) -> (waiting: Seq<CoreBluetoothPeerId>)
    requires
        peers.no_duplicates(),
    ensures
        ({
            let told = state.failures(peers);
            &&& waiting.no_duplicates()
            &&& waiting.len() == told.len()
            &&& forall|i: int|
                0 <= i < waiting.len() ==> peers.contains(#[trigger] waiting[i])
                    && state.sessions.dom().contains(waiting[i])
                    && state.sessions[waiting[i]].completion_tx == Some(told[i].completion_tx)
                    && told[i].completion is Failed
            &&& forall|j: int|
                0 <= j < peers.len() && state.sessions.dom().contains(#[trigger] peers[j])
                    && state.sessions[peers[j]].completion_tx is Some ==> waiting.contains(peers[j])
        }),
    decreases peers.len(),
{
    if peers.len() == 0 {
        Seq::empty()
    } else {
        let earlier = peers.drop_last();
        let last = peers.last();
        assert forall|i: int, j: int| 0 <= i < j < earlier.len() implies earlier[i]
            != earlier[j] by {
            assert(peers[i] != peers[j]);
        }
        let before = lemma_failures(state, earlier);
        let told = state.failures(peers);
        let told_before = state.failures(earlier);
        let n = peers.len() - 1;
        assert forall|i: int| 0 <= i < before.len() implies peers.contains(#[trigger] before[i])
            && before[i] != last by {
            let j = earlier.index_of(before[i]);
            assert(earlier[j] == before[i]);
            assert(peers[j] == before[i]);
            assert(peers[n] == last);
            assert(peers[j] != peers[n]);
        }
        let waits = state.sessions.dom().contains(last) && state.sessions[last].completion_tx
            is Some;
        let waiting = if waits {
            before.push(last)
        } else {
            before
        };
        assert(peers[n] == last);
        if !waits {
            assert(told =~= told_before);
        }
        assert forall|j: int|
            0 <= j < peers.len() && state.sessions.dom().contains(#[trigger] peers[j])
                && state.sessions[peers[j]].completion_tx is Some implies waiting.contains(
            peers[j],
        ) by {
            if j < n {
                assert(earlier[j] == peers[j]);
                let i = before.index_of(peers[j]);
                assert(waiting[i] == peers[j]);
            } else {
                assert(waiting[waiting.len() - 1] == last);
            }
        }
        assert forall|i: int| 0 <= i < waiting.len() implies peers.contains(#[trigger] waiting[i])
            && state.sessions.dom().contains(waiting[i])
            && state.sessions[waiting[i]].completion_tx == Some(told[i].completion_tx)
            && told[i].completion is Failed by {
            if i < before.len() {
                assert(waiting[i] == before[i]);
                assert(told[i] == told_before[i]);
            } else {
                assert(waiting[i] == last);
                assert(told[i] == state.failure(last)->0);
            }
        }
        waiting
    }
}

/// Reaping ends exactly the sessions whose owners are gone. What is registered of their peers goes
/// with them, and every other session stays as it is.
pub proof fn law_reaping_is_exact<P, C, K, D: GattInbox, T>(
    state: &mut CentralState<P, C, K, D, T>,
    now: u64,
    reaped: Reaped<P, K>,
    peer_id: CoreBluetoothPeerId,
)
    requires
        old(state).wf(),
        call_ensures(
            CentralState::<P, C, K, D, T>::reap_closed_sessions_at,
            (state, now),
            reaped,
        ),
        old(state)@.sessions.dom().contains(peer_id),
    ensures
        final(state)@.sessions.dom().contains(peer_id) ==> {
            &&& final(state)@.sessions[peer_id] == old(state)@.sessions[peer_id]
            &&& ingress::reports_closed(old(state)@.sessions[peer_id].data_tx.inbox(), false)
        },
        !final(state)@.sessions.dom().contains(peer_id) ==> {
            &&& ingress::reports_closed(old(state)@.sessions[peer_id].data_tx.inbox(), true)
            &&& forall|i: int|
                0 <= i < final(state)@.registry.peripherals.len() ==> (
                #[trigger] final(state)@.registry.peripherals[i]).peer_id != peer_id
        },
{
    state.registry.lemma_wf();
    state.guard.lemma_wf();
    let closed = reaped.closed@;
    old(state)@.law_reaping(closed, now);
    if closed.contains(peer_id) {
        let i = closed.index_of(peer_id);
        assert(closed[i] == peer_id);
        lemma_reaped_is_unregistered(old(state)@, closed, now, peer_id);
    }
}

proof fn lemma_reaped_is_unregistered<P, C, K, D, T>(
    state: CentralModel<P, C, K, D, T>,
    closed: Seq<CoreBluetoothPeerId>,
    now: u64,
    peer_id: CoreBluetoothPeerId,
)
    requires
        state.wf(),
        closed.contains(peer_id),
    ensures
        forall|i: int|
            0 <= i < state.reaped(closed, now).state.registry.peripherals.len() ==> (
            #[trigger] state.reaped(closed, now).state.registry.peripherals[i]).peer_id != peer_id,
    decreases closed.len(),
{
    let earlier = closed.drop_last();
    let last = closed.last();
    state.law_reaping(earlier, now);
    let before = state.reaped(earlier, now).state;
    before.registry.law_removal_is_exact(last);
    let after = state.reaped(closed, now).state;
    assert(after.registry == before.registry.removed(last));
    if last != peer_id {
        let c = closed.index_of(peer_id);
        assert(earlier[c] == peer_id);
        lemma_reaped_is_unregistered(state, earlier, now, peer_id);
        assert forall|i: int| 0 <= i < after.registry.peripherals.len() implies (
        #[trigger] after.registry.peripherals[i]).peer_id != peer_id by {
            let j = before.registry.peripherals.index_of(after.registry.peripherals[i]);
            assert(before.registry.peripherals[j] == after.registry.peripherals[i]);
        }
    }
}

/// The connection of every reaped peer that was registered is cancelled, and this is remembered with
/// the time; nobody else's is. Every dialer of a reaped session that still waits is told that its
/// dial failed, once, and nobody else is told anything.
pub proof fn law_reaped_peers_are_let_go<P, C, K, D: GattInbox, T>(
    state: &mut CentralState<P, C, K, D, T>,
    now: u64,
    reaped: Reaped<P, K>,
)
    requires
        old(state).wf(),
        call_ensures(
            CentralState::<P, C, K, D, T>::reap_closed_sessions_at,
            (state, now),
            reaped,
        ),
    ensures
        forall|peer_id: CoreBluetoothPeerId| #[trigger]
            reaped.closed@.contains(peer_id) <==> old(state)@.sessions.dom().contains(peer_id)
                && !final(state)@.sessions.dom().contains(peer_id),
        exists|at: Seq<int>| #[trigger]
            cancels_each_once(old(state)@.registry, reaped.closed@, at, reaped.cancel@),
        forall|i: int|
            0 <= i < old(state)@.registry.peripherals.len() && reaped.closed@.contains(
                (#[trigger] old(state)@.registry.peripherals[i]).peer_id,
            ) ==> final(state)@.guard.cancellations.dom().contains(
                old(state)@.registry.peripherals[i].peer_id,
            ) && final(state)@.guard.cancellations[old(state)@.registry.peripherals[i].peer_id]
                == now,
        exists|peers: Seq<CoreBluetoothPeerId>| #[trigger]
            tells_reaped_once(old(state)@, reaped.closed@, peers, reaped.deliveries@),
        final(state)@.guard.misses == old(state)@.guard.misses,
{
    state.registry.lemma_wf();
    state.guard.lemma_wf();
    let closed = reaped.closed@;
    old(state)@.law_reaping(closed, now);
    assert forall|peer_id: CoreBluetoothPeerId| #[trigger]
        closed.contains(peer_id) implies old(state)@.sessions.dom().contains(peer_id)
        && !final(state)@.sessions.dom().contains(peer_id) by {
        let i = closed.index_of(peer_id);
        assert(closed[i] == peer_id);
        assert(!old(state)@.reaped(closed, now).state.sessions.dom().contains(peer_id));
    }
    assert forall|peer_id: CoreBluetoothPeerId|
        old(state)@.sessions.dom().contains(peer_id) && !final(state)@.sessions.dom().contains(
            peer_id,
        ) implies #[trigger] closed.contains(peer_id) by {
        assert(!old(state)@.reaped(closed, now).state.sessions.dom().contains(peer_id));
    }
    let at = lemma_reaped_links(old(state)@, closed, now);
    assert(cancels_each_once(old(state)@.registry, closed, at, reaped.cancel@));
    let peers = lemma_reaped_dialers(old(state)@, closed, now);
    assert(tells_reaped_once(old(state)@, closed, peers, reaped.deliveries@));
}

/// The handles are those of the entries of the given peers, which stand at the indices, each once.
pub open spec fn cancels_each_once<P, C>(
    registry: RegistryModel<P, C>,
    closed: Seq<CoreBluetoothPeerId>,
    at: Seq<int>,
    handles: Seq<P>,
) -> bool {
    &&& at.len() == handles.len()
    &&& at.no_duplicates()
    &&& forall|h: int|
        0 <= h < at.len() ==> 0 <= #[trigger] at[h] < registry.peripherals.len() && closed.contains(
            registry.peripherals[at[h]].peer_id,
        ) && handles[h] == registry.peripherals[at[h]].peripheral
    &&& forall|i: int|
        0 <= i < registry.peripherals.len() && closed.contains(
            (#[trigger] registry.peripherals[i]).peer_id,
        ) ==> at.contains(i)
}

/// The peers are those of the given ones whose dialers still wait, each once, and the deliveries
/// tell these dialers that their dials failed.
pub open spec fn tells_reaped_once<P, C, K, D, T>(
    state: CentralModel<P, C, K, D, T>,
    closed: Seq<CoreBluetoothPeerId>,
    peers: Seq<CoreBluetoothPeerId>,
    deliveries: Seq<CompletionDelivery<K>>,
) -> bool {
    &&& peers.no_duplicates()
    &&& peers.len() == deliveries.len()
    &&& forall|i: int|
        0 <= i < peers.len() ==> closed.contains(#[trigger] peers[i])
            && state.sessions.dom().contains(peers[i]) && state.sessions[peers[i]].completion_tx
            == Some(deliveries[i].completion_tx) && deliveries[i].completion is Failed
    &&& forall|peer_id: CoreBluetoothPeerId| #[trigger]
        closed.contains(peer_id) && state.sessions.dom().contains(peer_id)
            && state.sessions[peer_id].completion_tx is Some ==> peers.contains(peer_id)
}

proof fn lemma_reaped_dialers<P, C, K, D, T>(
    state: CentralModel<P, C, K, D, T>,
    closed: Seq<CoreBluetoothPeerId>,
    now: u64,
) -> (peers: Seq<CoreBluetoothPeerId>)
    requires
        state.wf(),
        closed.no_duplicates(),
    ensures
        tells_reaped_once(state, closed, peers, state.reaped(closed, now).deliveries),
    decreases closed.len(),
{
    if closed.len() == 0 {
        Seq::empty()
    } else {
        let earlier = closed.drop_last();
        let last = closed.last();
        let n = closed.len() - 1;
        assert(closed[n] == last);
        let before = lemma_reaped_dialers(state, earlier, now);
        state.law_reaping(earlier, now);
        let mid = state.reaped(earlier, now);
        assert(!earlier.contains(last)) by {
            if earlier.contains(last) {
                let i = earlier.index_of(last);
                assert(closed[i] == closed[n]);
            }
        }
        assert(mid.state.sessions.dom().contains(last) == state.sessions.dom().contains(last));
        let waits = state.sessions.dom().contains(last) && state.sessions[last].completion_tx
            is Some;
        let peers = if waits {
            before.push(last)
        } else {
            before
        };
        let told = state.reaped(closed, now).deliveries;
        assert(told =~= mid.deliveries + central::listed(mid.state.failure(last)));
        assert forall|peer_id: CoreBluetoothPeerId| earlier.contains(peer_id) implies
            closed.contains(peer_id) by {
            let i = earlier.index_of(peer_id);
            assert(closed[i] == peer_id);
        }
        assert forall|i: int| 0 <= i < peers.len() implies closed.contains(#[trigger] peers[i])
            && state.sessions.dom().contains(peers[i]) && state.sessions[peers[i]].completion_tx
            == Some(told[i].completion_tx) && told[i].completion is Failed by {
            if i < before.len() {
                assert(peers[i] == before[i]);
                assert(told[i] == mid.deliveries[i]);
            } else {
                assert(told[i] == mid.state.failure(last)->0);
            }
        }
        assert forall|peer_id: CoreBluetoothPeerId| #[trigger]
            closed.contains(peer_id) && state.sessions.dom().contains(peer_id)
                && state.sessions[peer_id].completion_tx is Some implies peers.contains(
            peer_id,
        ) by {
            let i = closed.index_of(peer_id);
            assert(closed[i] == peer_id);
            if i < n {
                assert(earlier[i] == peer_id);
                assert(earlier.contains(peer_id));
                let k = before.index_of(peer_id);
                assert(peers[k] == peer_id);
            } else {
                assert(peers[peers.len() - 1] == last);
            }
        }
        assert forall|i: int, j: int| 0 <= i < j < peers.len() implies peers[i] != peers[j] by {
            if j == before.len() {
                assert(earlier.contains(before[i]));
            }
        }
        peers
    }
}

proof fn lemma_reaped_links<P, C, K, D, T>(
    state: CentralModel<P, C, K, D, T>,
    closed: Seq<CoreBluetoothPeerId>,
    now: u64,
) -> (at: Seq<int>)
    requires
        state.wf(),
        closed.no_duplicates(),
    ensures
        cancels_each_once(state.registry, closed, at, state.reaped(closed, now).cancel),
        forall|i: int|
            0 <= i < state.registry.peripherals.len() && !closed.contains(
                (#[trigger] state.registry.peripherals[i]).peer_id,
            ) ==> state.reaped(closed, now).state.registry.peripherals.contains(
                state.registry.peripherals[i],
            ),
        forall|i: int|
            0 <= i < state.reaped(closed, now).state.registry.peripherals.len()
                ==> state.registry.peripherals.contains(
                #[trigger] state.reaped(closed, now).state.registry.peripherals[i],
            ),
        forall|i: int|
            0 <= i < state.registry.peripherals.len() && closed.contains(
                (#[trigger] state.registry.peripherals[i]).peer_id,
            ) ==> state.reaped(closed, now).state.guard.cancellations.dom().contains(
                state.registry.peripherals[i].peer_id,
            ) && state.reaped(
                closed,
                now,
            ).state.guard.cancellations[state.registry.peripherals[i].peer_id] == now,
        state.reaped(closed, now).state.guard.misses == state.guard.misses,
    decreases closed.len(),
{
    let entries = state.registry.peripherals;
    if closed.len() == 0 {
        Seq::empty()
    } else {
        let earlier = closed.drop_last();
        let last = closed.last();
        let n = closed.len() - 1;
        assert(closed[n] == last);
        let before = lemma_reaped_links(state, earlier, now);
        state.law_reaping(earlier, now);
        let mid = state.reaped(earlier, now);
        let after = state.reaped(closed, now);
        assert(!earlier.contains(last)) by {
            if earlier.contains(last) {
                let i = earlier.index_of(last);
                assert(closed[i] == closed[n]);
            }
        }
        assert forall|peer_id: CoreBluetoothPeerId| #[trigger]
            closed.contains(peer_id) <==> earlier.contains(peer_id) || peer_id == last by {
            if closed.contains(peer_id) {
                let i = closed.index_of(peer_id);
                if i < n {
                    assert(earlier[i] == peer_id);
                }
            }
            if earlier.contains(peer_id) {
                let i = earlier.index_of(peer_id);
                assert(closed[i] == peer_id);
            }
        }
        mid.state.registry.law_removal_is_exact(last);
        assert(after.state.registry == mid.state.registry.removed(last));
        assert forall|i: int| 0 <= i < after.state.registry.peripherals.len() implies
            entries.contains(#[trigger] after.state.registry.peripherals[i]) by {
            let j = mid.state.registry.peripherals.index_of(after.state.registry.peripherals[i]);
            assert(mid.state.registry.peripherals[j] == after.state.registry.peripherals[i]);
        }
        assert forall|i: int|
            0 <= i < entries.len() && !closed.contains((#[trigger] entries[i]).peer_id) implies
            after.state.registry.peripherals.contains(entries[i]) by {
            assert(!earlier.contains(entries[i].peer_id));
            let j = mid.state.registry.peripherals.index_of(entries[i]);
            assert(mid.state.registry.peripherals[j] == entries[i]);
        }
        assert forall|i: int, j: int|
            0 <= i < entries.len() && 0 <= j < entries.len() && (#[trigger] entries[i]).peer_id
                == (#[trigger] entries[j]).peer_id implies i == j by {
            state.registry.lemma_entry_is(i);
            state.registry.lemma_entry_is(j);
        }
        let handle = mid.state.registry.handle(last);
        match handle {
            Some(peripheral) => {
                let j = choose|j: int|
                    0 <= j < mid.state.registry.peripherals.len() && (
                    #[trigger] mid.state.registry.peripherals[j]).peer_id == last
                        && mid.state.registry.peripherals[j].peripheral == peripheral;
                let found = mid.state.registry.peripherals[j];
                assert(entries.contains(found));
                let e = entries.index_of(found);
                assert(entries[e] == found);
                let at = before.push(e);
                assert(after.cancel =~= mid.cancel.push(peripheral));
                assert forall|h: int| 0 <= h < at.len() implies 0 <= #[trigger] at[h]
                    < entries.len() && closed.contains(entries[at[h]].peer_id) && after.cancel[h]
                    == entries[at[h]].peripheral by {
                    if h < before.len() {
                        assert(at[h] == before[h]);
                        assert(earlier.contains(entries[before[h]].peer_id));
                    }
                }
                assert forall|g: int, h: int| 0 <= g < h < at.len() implies at[g] != at[h] by {
                    assert(at[g] == before[g]);
                    assert(earlier.contains(entries[before[g]].peer_id));
                }
                assert forall|i: int|
                    0 <= i < entries.len() && closed.contains(
                        (#[trigger] entries[i]).peer_id,
                    ) implies at.contains(i) by {
                    if earlier.contains(entries[i].peer_id) {
                        let h = before.index_of(i);
                        assert(at[h] == i);
                    } else {
                        assert(entries[i].peer_id == entries[e].peer_id);
                        assert(at[at.len() - 1] == i);
                    }
                }
                at
            },
            None => {
                assert(after.cancel =~= mid.cancel);
                assert forall|i: int| 0 <= i < entries.len() implies (
                #[trigger] entries[i]).peer_id != last by {
                    if entries[i].peer_id == last {
                        assert(!earlier.contains(entries[i].peer_id));
                        let j = mid.state.registry.peripherals.index_of(entries[i]);
                        assert(mid.state.registry.peripherals[j].peer_id == last);
                    }
                }
                assert forall|h: int| 0 <= h < before.len() implies 0 <= #[trigger] before[h]
                    < entries.len() && closed.contains(entries[before[h]].peer_id)
                    && after.cancel[h] == entries[before[h]].peripheral by {
                    assert(earlier.contains(entries[before[h]].peer_id));
                }
                before
            },
        }
    }
}

/// A peer that is gone is forgotten: its handle is given back where it was registered, and its
/// dialer is told that the dial failed where it still waits. A peer that is only discarded keeps its
/// session. Nobody else is touched.
pub proof fn law_forgotten_peer<P, C, K, D, T>(
    state: &mut CentralState<P, C, K, D, T>,
    peer_id: CoreBluetoothPeerId,
    finished: Finished<P, K>,
    other: &mut CentralState<P, C, K, D, T>,
    handle: Option<P>,
)
    requires
        old(state).wf(),
        *old(other) == *old(state),
        call_ensures(CentralState::<P, C, K, D, T>::finish_peer, (state, peer_id), finished),
        call_ensures(CentralState::<P, C, K, D, T>::discard_peer, (other, peer_id), handle),
    ensures
        central_laws::is_lost(old(state)@, final(state)@, peer_id, finished),
        central_laws::keeps_other_sessions(old(state)@, final(state)@, peer_id),
        central_laws::is_handle(old(state)@.registry, peer_id, handle),
        central_laws::unregisters(old(state)@.registry, final(other)@.registry, peer_id),
        final(other)@.sessions == old(state)@.sessions,
{
    state.registry.lemma_wf();
    old(state)@.registry.law_removal_is_exact(peer_id);
}

/// A radio that is off adopts nothing: every presented peripheral is cancelled, and none of their
/// peers is registered afterwards.
pub proof fn law_nothing_is_restored_with_the_radio_off<P, C, K, D, T>(
    state: &mut CentralState<P, C, K, D, T>,
    presented: VecDeque<RestoredPeripheral<P>>,
    actions: Vec<RestoreAction>,
)
    requires
        old(state).wf(),
        call_ensures(
            CentralState::<P, C, K, D, T>::restore_peripherals,
            (state, false, presented),
            actions,
        ),
    ensures
        actions@.len() == presented@.len(),
        forall|i: int|
            0 <= i < actions@.len() ==> #[trigger] actions@[i] == RestoreAction::DetachAndCancel,
        final(state)@.sessions == old(state)@.sessions,
        forall|i: int, e: int|
            0 <= i < presented@.len() && 0 <= e < final(state)@.registry.peripherals.len() ==> (
            #[trigger] final(state)@.registry.peripherals[e]).peer_id != (
            #[trigger] presented@[i]).peer_id,
{
    state.registry.lemma_wf();
    lemma_restored_off(old(state)@.registry, presented@);
}

proof fn lemma_restored_off<P, C>(
    registry: RegistryModel<P, C>,
    presented: Seq<RestoredPeripheral<P>>,
)
    requires
        registry.wf(),
    ensures
        central_events::restored_all(registry, false, presented).wf(),
        forall|i: int, e: int|
            0 <= i < presented.len() && 0 <= e < central_events::restored_all(
                registry,
                false,
                presented,
            ).peripherals.len() ==> (#[trigger] central_events::restored_all(
                registry,
                false,
                presented,
            ).peripherals[e]).peer_id != (#[trigger] presented[i]).peer_id,
    decreases presented.len(),
{
    if presented.len() > 0 {
        let earlier = presented.drop_last();
        lemma_restored_off(registry, earlier);
        let before = central_events::restored_all(registry, false, earlier);
        let after = central_events::restored_all(registry, false, presented);
        before.law_removal(presented.last().peer_id);
        before.law_removal_is_exact(presented.last().peer_id);
        assert forall|i: int, e: int|
            0 <= i < presented.len() && 0 <= e < after.peripherals.len() implies (
        #[trigger] after.peripherals[e]).peer_id != (#[trigger] presented[i]).peer_id by {
            if i < earlier.len() {
                assert(earlier[i] == presented[i]);
                let b = before.peripherals.index_of(after.peripherals[e]);
                assert(before.peripherals[b] == after.peripherals[e]);
            }
        }
    }
}

/// With the radio on, every peripheral that is listened to waits for its session: something is
/// buffered for its peer from then on, whatever is presented after it. One that is ignored is owned.
pub proof fn law_restored_peripherals_wait<P, C, K, D, T>(
    state: &mut CentralState<P, C, K, D, T>,
    presented: VecDeque<RestoredPeripheral<P>>,
    actions: Vec<RestoreAction>,
    i: int,
)
    requires
        old(state).wf(),
        call_ensures(
            CentralState::<P, C, K, D, T>::restore_peripherals,
            (state, true, presented),
            actions,
        ),
        0 <= i < presented@.len(),
    ensures
        actions@.len() == presented@.len(),
        final(state)@.sessions == old(state)@.sessions,
        actions@[i] != RestoreAction::DetachAndCancel,
        actions@[i] == RestoreAction::Attach ==> exists|held: CallbackModel<C>| #[trigger]
            handoff_laws::buffers(final(state)@.registry, presented@[i].peer_id, held),
        actions@[i] == RestoreAction::Ignore || actions@[i] == RestoreAction::Attach
            ==> exists|e: int|
            0 <= e < final(state)@.registry.peripherals.len() && (
            #[trigger] final(state)@.registry.peripherals[e]).peer_id == presented@[i].peer_id
                && final(state)@.registry.peripherals[e].state
                != CentralPeripheralState::Observed,
{
    state.registry.lemma_wf();
    let start = old(state)@.registry;
    let all = presented@;
    let peer_id = all[i].peer_id;
    lemma_restored_on(start, all.take(i));
    let before = central_events::restored_all(start, true, all.take(i));
    assert(actions@[i] == central_events::restore_action(before, true, peer_id));
    before.law_admission_answers(peer_id, all[i].peripheral);
    before.law_admission_keeps_wf(peer_id, all[i].peripheral);
    let next = before.admitted(peer_id, all[i].peripheral);
    assert(all.take(i + 1).drop_last() =~= all.take(i));
    assert(central_events::restored_all(start, true, all.take(i + 1)) == next);
    assert(all.take(all.len() as int) =~= all);
    let end = central_events::restored_all(start, true, all);
    assert(final(state)@.registry == end);
    match before.admission(peer_id) {
        RestoredAdmission::Admitted => {
            let k = next.restored.len() - 1;
            let held = next.restored[k].callbacks;
            assert(handoff_laws::buffers(next, peer_id, held));
            let e = next.peripherals.len() - 1;
            assert(next.peripherals[e].peer_id == peer_id);
            assert(registry_laws::stands_in_state(
                next.peripherals,
                peer_id,
                CentralPeripheralState::Restored,
            ));
            lemma_restoring_keeps(
                start,
                all,
                i + 1,
                peer_id,
                held,
                CentralPeripheralState::Restored,
            );
            assert(handoff_laws::buffers(end, peer_id, held));
        },
        RestoredAdmission::Updated => {
            let k = choose|k: int|
                0 <= k < before.restored.len() && (#[trigger] before.restored[k]).peer_id
                    == peer_id && before.restored[k].phase == RestoredPhase::Queued;
            let held = next.restored[k].callbacks;
            assert(next.restored[k] == before.restored[k]);
            assert(handoff_laws::buffers(next, peer_id, held));
            next.lemma_owner_has_entry(k);
            let e = next.entry(peer_id)->0;
            let kept = next.peripherals[e].state;
            assert(registry_laws::stands_in_state(next.peripherals, peer_id, kept));
            lemma_restoring_keeps(start, all, i + 1, peer_id, held, kept);
            assert(handoff_laws::buffers(end, peer_id, held));
        },
        RestoredAdmission::AlreadyOwned => {
            let e = choose|e: int|
                0 <= e < before.peripherals.len() && (#[trigger] before.peripherals[e]).peer_id
                    == peer_id && before.peripherals[e].state != CentralPeripheralState::Observed;
            let kept = next.peripherals[e].state;
            assert(registry_laws::stands_in_state(next.peripherals, peer_id, kept));
            lemma_owner_stays(start, all, i + 1, peer_id, kept);
        },
        RestoredAdmission::Full => {},
    }
}

proof fn lemma_restored_on<P, C>(
    registry: RegistryModel<P, C>,
    presented: Seq<RestoredPeripheral<P>>,
)
    requires
        registry.wf(),
    ensures
        central_events::restored_all(registry, true, presented).wf(),
    decreases presented.len(),
{
    if presented.len() > 0 {
        lemma_restored_on(registry, presented.drop_last());
        central_events::restored_all(registry, true, presented.drop_last()).law_admission_keeps_wf(
            presented.last().peer_id,
            presented.last().peripheral,
        );
    }
}

/// A peer that is owned after some were presented is owned after all were.
proof fn lemma_owner_stays<P, C>(
    registry: RegistryModel<P, C>,
    presented: Seq<RestoredPeripheral<P>>,
    n: int,
    peer_id: CoreBluetoothPeerId,
    kept: CentralPeripheralState,
)
    requires
        registry.wf(),
        0 <= n <= presented.len(),
        kept != CentralPeripheralState::Observed,
        registry_laws::stands_in_state(
            central_events::restored_all(registry, true, presented.take(n)).peripherals,
            peer_id,
            kept,
        ),
    ensures
        registry_laws::stands_in_state(
            central_events::restored_all(registry, true, presented).peripherals,
            peer_id,
            kept,
        ),
    decreases presented.len() - n,
{
    if n == presented.len() {
        assert(presented.take(n) =~= presented);
    } else {
        let so_far = presented.take(n);
        let next = presented.take(n + 1);
        assert(next.drop_last() =~= so_far);
        lemma_restored_on(registry, so_far);
        let before = central_events::restored_all(registry, true, so_far);
        let k = choose|k: int|
            0 <= k < before.peripherals.len() && (#[trigger] before.peripherals[k]).peer_id
                == peer_id && before.peripherals[k].state == kept;
        before.law_owned_is_never_evicted(
            presented[n].peer_id,
            presented[n].peripheral,
            None,
            k,
        );
        lemma_owner_stays(registry, presented, n + 1, peer_id, kept);
    }
}

/// What is buffered for a peer after some were presented is buffered for it after all were.
proof fn lemma_restoring_keeps<P, C>(
    registry: RegistryModel<P, C>,
    presented: Seq<RestoredPeripheral<P>>,
    n: int,
    peer_id: CoreBluetoothPeerId,
    held: CallbackModel<C>,
    kept: CentralPeripheralState,
)
    requires
        registry.wf(),
        0 <= n <= presented.len(),
        kept != CentralPeripheralState::Observed,
        handoff_laws::buffers(
            central_events::restored_all(registry, true, presented.take(n)),
            peer_id,
            held,
        ),
        registry_laws::stands_in_state(
            central_events::restored_all(registry, true, presented.take(n)).peripherals,
            peer_id,
            kept,
        ),
    ensures
        handoff_laws::buffers(
            central_events::restored_all(registry, true, presented),
            peer_id,
            held,
        ),
        registry_laws::stands_in_state(
            central_events::restored_all(registry, true, presented).peripherals,
            peer_id,
            kept,
        ),
    decreases presented.len() - n,
{
    lemma_owner_stays(registry, presented, n, peer_id, kept);
    if n == presented.len() {
        assert(presented.take(n) =~= presented);
    } else {
        let so_far = presented.take(n);
        let next = presented.take(n + 1);
        assert(next.drop_last() =~= so_far);
        lemma_restored_on(registry, so_far);
        let before = central_events::restored_all(registry, true, so_far);
        handoff_laws::law_handoff_is_undisturbed(
            before,
            peer_id,
            held,
            peer_id.spec_address(),
            presented[n].peer_id,
            presented[n].peripheral,
            None,
        );
        let k = choose|k: int|
            0 <= k < before.peripherals.len() && (#[trigger] before.peripherals[k]).peer_id
                == peer_id && before.peripherals[k].state == kept;
        before.law_owned_is_never_evicted(
            presented[n].peer_id,
            presented[n].peripheral,
            None,
            k,
        );
        lemma_restoring_keeps(registry, presented, n + 1, peer_id, held, kept);
    }
}

/// The owner of the peer's session is gone.
pub open spec fn is_orphaned<P, C, K, D: GattInbox, T>(
    state: CentralModel<P, C, K, D, T>,
    peer_id: CoreBluetoothPeerId,
) -> bool {
    &&& state.sessions.dom().contains(peer_id)
    &&& !ingress::reports_closed(state.sessions[peer_id].data_tx.inbox(), false)
}

/// The owner of the peer's session is there.
pub open spec fn is_owned<P, C, K, D: GattInbox, T>(
    state: CentralModel<P, C, K, D, T>,
    peer_id: CoreBluetoothPeerId,
) -> bool {
    &&& state.sessions.dom().contains(peer_id)
    &&& !ingress::reports_closed(state.sessions[peer_id].data_tx.inbox(), true)
}

/// Sessions whose owners are gone make room before a dial, a discovery, a connection or a session is
/// answered: such a session is gone afterwards. One whose owner is there stays as it is.
pub proof fn law_orphans_make_room_first<P: Clone, C, K, D: GattInbox, T>(
    peer_id: CoreBluetoothPeerId,
    now: u64,
    claiming: &mut CentralState<P, C, K, D, T>,
    address: BleAddress,
    claimed: (Reaped<P, K>, CentralDialCandidate<P>),
    discovering: &mut CentralState<P, C, K, D, T>,
    found: Discovery<P>,
    discovered: (Reaped<P, K>, DiscoverAction),
    connecting: &mut CentralState<P, C, K, D, T>,
    other: CoreBluetoothPeerId,
    connected: ConnectStep<P, K>,
    beginning: &mut CentralState<P, C, K, D, T>,
    session: CentralPeerSession<C, K, D, T>,
    begin: BeginStep<P, K>,
)
    requires
        old(claiming).wf(),
        call_ensures(
            CentralState::<P, C, K, D, T>::claim,
            (claiming, true, address, now),
            claimed,
        ),
        old(discovering).wf(),
        call_ensures(
            CentralState::<P, C, K, D, T>::did_discover,
            (discovering, true, found, now),
            discovered,
        ),
        old(connecting).wf(),
        call_ensures(
            CentralState::<P, C, K, D, T>::did_connect,
            (connecting, true, other, now),
            connected,
        ),
        old(beginning).wf(),
        call_ensures(
            CentralState::<P, C, K, D, T>::begin_session,
            (beginning, true, other, session, now),
            begin,
        ),
        other != peer_id,
    ensures
        frees_orphan(old(claiming)@, final(claiming)@, peer_id),
        frees_orphan(old(discovering)@, final(discovering)@, peer_id),
        frees_orphan(old(connecting)@, final(connecting)@, peer_id),
        frees_orphan(old(beginning)@, final(beginning)@, peer_id),
{
    claiming.registry.lemma_wf();
    claiming.guard.lemma_wf();
    lemma_frees_orphan(old(claiming)@, claimed.0, now, peer_id);
    discovering.registry.lemma_wf();
    discovering.guard.lemma_wf();
    lemma_frees_orphan(old(discovering)@, discovered.0, now, peer_id);
    connecting.registry.lemma_wf();
    connecting.guard.lemma_wf();
    lemma_frees_orphan(old(connecting)@, connected.reaped, now, peer_id);
    beginning.registry.lemma_wf();
    beginning.guard.lemma_wf();
    lemma_frees_orphan(old(beginning)@, begin.reaped, now, peer_id);
}

/// The peer's session is gone where its owner is, and stays where its owner is there.
pub open spec fn frees_orphan<P, C, K, D: GattInbox, T>(
    before: CentralModel<P, C, K, D, T>,
    after: CentralModel<P, C, K, D, T>,
    peer_id: CoreBluetoothPeerId,
) -> bool {
    &&& is_orphaned(before, peer_id) ==> !after.sessions.dom().contains(peer_id)
    &&& is_owned(before, peer_id) ==> after.sessions.dom().contains(peer_id)
        && after.sessions[peer_id] == before.sessions[peer_id]
}

proof fn lemma_frees_orphan<P, C, K, D: GattInbox, T>(
    state: CentralModel<P, C, K, D, T>,
    reaped: Reaped<P, K>,
    now: u64,
    peer_id: CoreBluetoothPeerId,
)
    requires
        state.wf(),
        reaped.of(state, now),
    ensures
        frees_orphan(state, state.reaped(reaped.closed@, now).state, peer_id),
{
    let closed = reaped.closed@;
    state.law_reaping(closed, now);
    assert(state.reaped(closed, now).state.sessions.dom().contains(peer_id) <==> (
    state.sessions.dom().contains(peer_id) && !closed.contains(peer_id)));
    if closed.contains(peer_id) {
        let i = closed.index_of(peer_id);
        assert(closed[i] == peer_id);
    }
}

/// A restored peripheral is listened to exactly where it waits for its session afterwards, and it
/// is turned down only where as many wait as may, or where others own its address or every entry.
/// One that is turned down, or that is owned already, changes nothing.
pub proof fn law_restored_peripheral<P, C, K, D, T>(
    state: &mut CentralState<P, C, K, D, T>,
    presented: VecDeque<RestoredPeripheral<P>>,
    actions: Vec<RestoreAction>,
)
    requires
        old(state).wf(),
        call_ensures(
            CentralState::<P, C, K, D, T>::restore_peripherals,
            (state, true, presented),
            actions,
        ),
        presented@.len() == 1,
    ensures
        ({
            let before = old(state)@.registry;
            let after = final(state)@.registry;
            let peer_id = presented@[0].peer_id;
            let action = actions@[0];
            &&& actions@.len() == 1
            &&& action is Attach <==> exists|k: int|
                0 <= k < after.restored.len() && (#[trigger] after.restored[k]).peer_id == peer_id
                    && after.restored[k].phase == RestoredPhase::Queued
            &&& action is Attach ==> central_laws::is_handle(
                after,
                peer_id,
                Some(presented@[0].peripheral),
            )
            &&& !(action is Attach) ==> after == before
            &&& action is Cancel ==> {
                ||| before.restored.len() >= before.restored_capacity
                ||| exists|i: int| #[trigger]
                    before.stands_at(i, peer_id.spec_address()) && before.owns(i)
                ||| before.peripherals.len() >= before.peripheral_capacity && forall|i: int|
                    0 <= i < before.peripherals.len() ==> #[trigger] before.owns(i)
            }
        }),
{
    state.registry.lemma_wf();
    let before = old(state)@.registry;
    let all = presented@;
    let peer_id = all[0].peer_id;
    assert(all.take(0) =~= Seq::<RestoredPeripheral<P>>::empty());
    assert(all.drop_last() =~= Seq::<RestoredPeripheral<P>>::empty());
    reveal_with_fuel(central_events::restored_all, 2);
    assert(actions@[0] == central_events::restore_action(before, true, peer_id));
    let after = before.admitted(peer_id, all[0].peripheral);
    assert(final(state)@.registry == after);
    before.law_admission_answers(peer_id, all[0].peripheral);
    before.lemma_not_found(peer_id);
    before.law_room_is_owed(peer_id.spec_address());
    match before.admission(peer_id) {
        RestoredAdmission::Admitted => {
            let k = after.restored.len() - 1;
            assert(after.restored[k].peer_id == peer_id);
            let e = after.peripherals.len() - 1;
            assert(after.peripherals[e].peer_id == peer_id);
        },
        RestoredAdmission::Updated => {
            let k = before.record(peer_id)->0;
            before.lemma_owner_has_entry(k);
            let e = before.entry(peer_id)->0;
            assert(after.peripherals[e].peer_id == peer_id);
        },
        RestoredAdmission::AlreadyOwned => {
            assert forall|k: int|
                0 <= k < before.restored.len() && (#[trigger] before.restored[k]).peer_id
                    == peer_id implies before.restored[k].phase != RestoredPhase::Queued by {
                before.lemma_record_is(k);
            }
        },
        RestoredAdmission::Full => {},
    }
}

/// A new session of a restored peer that begins has been handed exactly what was buffered for the
/// peer, in its order, and nothing is buffered for it any more; one whose handoff has failed never
/// begins. Where the peer is being dialed and nothing was buffered for it, its session begins.
pub proof fn law_restored_session_begins<P, C, K, D: GattInbox, T>(
    state: &mut CentralState<P, C, K, D, T>,
    peer_id: CoreBluetoothPeerId,
    session: CentralPeerSession<C, K, D, T>,
    now: u64,
    begin: BeginStep<P, K>,
    callbacks: CallbackModel<C>,
)
    requires
        old(state).wf(),
        call_ensures(
            CentralState::<P, C, K, D, T>::begin_session,
            (state, true, peer_id, session, now),
            begin,
        ),
        handoff_laws::buffers(old(state)@.registry, peer_id, callbacks),
        session.control_tx.offers().len() == 0 && session.data_tx.offers().len() == 0,
        !old(state)@.sessions.dom().contains(peer_id),
    ensures
        begin.began ==> {
            &&& !callbacks.failed
            &&& final(state)@.sessions.dom().contains(peer_id)
            &&& handoff_laws::took_exactly(
                final(state)@.sessions[peer_id].data_tx.offers(),
                callbacks.data,
            )
            &&& handoff_laws::took_exactly(
                final(state)@.sessions[peer_id].control_tx.offers(),
                callbacks.controls,
            )
        },
        !callbacks.failed && callbacks.data.len() == 0 && callbacks.controls.len() == 0 && (
        exists|i: int|
            0 <= i < old(state)@.registry.peripherals.len() && (
            #[trigger] old(state)@.registry.peripherals[i]).peer_id == peer_id
                && old(state)@.registry.peripherals[i].state == CentralPeripheralState::Dialing)
            ==> begin.began,
{
    state.registry.lemma_wf();
    state.guard.lemma_wf();
    let before = old(state)@;
    let closed = begin.reaped.closed@;
    let mid = before.reaped(closed, now).state;
    before.law_reaping(closed, now);
    if begin.began {
        handoff_laws::law_session_gets_what_was_buffered(
            begin,
            before,
            final(state)@,
            peer_id,
            session,
            now,
            callbacks,
        );
    } else if exists|i: int|
        0 <= i < before.registry.peripherals.len() && (
        #[trigger] before.registry.peripherals[i]).peer_id == peer_id
            && before.registry.peripherals[i].state == CentralPeripheralState::Dialing {
        let i = choose|i: int|
            0 <= i < before.registry.peripherals.len() && (
            #[trigger] before.registry.peripherals[i]).peer_id == peer_id
                && before.registry.peripherals[i].state == CentralPeripheralState::Dialing;
        assert(!closed.contains(peer_id)) by {
            if closed.contains(peer_id) {
                let k = closed.index_of(peer_id);
                assert(closed[k] == peer_id);
            }
        }
        let at = lemma_reaped_links(before, closed, now);
        let j = mid.registry.peripherals.index_of(before.registry.peripherals[i]);
        assert(mid.registry.peripherals[j] == before.registry.peripherals[i]);
        mid.registry.law_beginning_is_exact(peer_id);
        mid.registry.lemma_not_found(peer_id);
        handoff_laws::lemma_reaping_and_handoff(before, closed, now, peer_id, callbacks);
        assert(mid.registry.dialing(peer_id));
        let k = choose|k: int|
            0 <= k < mid.registry.restored.len() && (#[trigger] mid.registry.restored[k]).peer_id
                == peer_id && mid.registry.restored[k].callbacks == callbacks;
        mid.registry.lemma_record_is(k);
    }
}

/// With the radio off nobody is offered, sighted or found, and nothing changes.
pub proof fn law_nobody_is_found_with_the_radio_off<P: Clone, C, K, D: GattInbox, T>(
    offering: &mut CentralState<P, C, K, D, T>,
    offered: Option<CoreBluetoothPeerId>,
    sighting: &mut CentralState<P, C, K, D, T>,
    sighted: (Option<Sighting>, bool),
    claiming: &mut CentralState<P, C, K, D, T>,
    address: BleAddress,
    now: u64,
    claimed: (Reaped<P, K>, CentralDialCandidate<P>),
)
    requires
        call_ensures(
            CentralState::<P, C, K, D, T>::offer_restored,
            (offering, false),
            offered,
        ),
        call_ensures(
            CentralState::<P, C, K, D, T>::pop_sighting,
            (sighting, false),
            sighted,
        ),
        call_ensures(
            CentralState::<P, C, K, D, T>::claim,
            (claiming, false, address, now),
            claimed,
        ),
    ensures
        offered is None && final(offering)@ == old(offering)@,
        sighted.0 is None && !sighted.1 && final(sighting)@ == old(sighting)@,
        claimed.1 is Missing && final(claiming)@ == old(claiming)@,
        claimed.0.cancel@.len() == 0 && claimed.0.deliveries@.len() == 0,
{
}

} // verus!
