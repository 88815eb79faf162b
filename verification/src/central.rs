//! The central role: who is registered, who has a session, and what each event makes of that.

use crate::dial::{begin_dial, DialFacts, DialPlan, DialRejection, DialStart};
use crate::discovery::{DiscoveryGuard, GuardModel, StaleLinkRecovery};
use crate::ingress;
use crate::ingress::GattInbox;
use crate::peer::{BleAddress, CoreBluetoothPeerId, Sighting};
use crate::peer_map::PeerMap;
use crate::registry::CentralPeerRegistry;
use crate::registry_model;
use crate::registry_model::{CentralDialCandidate, CentralPeripheralState, RegistryModel};
use crate::search;
use crate::session;
use crate::session::{CentralPeerSession, CompletionDelivery, DialCompletion};
use vstd::prelude::*;

verus! {

/// The ids are those of the sessions whose owners are gone, each once.
pub open spec fn selects_closed<C, K, D: GattInbox, T>(
    sessions: Map<CoreBluetoothPeerId, CentralPeerSession<C, K, D, T>>,
    ids: Seq<CoreBluetoothPeerId>,
) -> bool {
    &&& ids.no_duplicates()
    &&& forall|i: int|
        0 <= i < ids.len() ==> sessions.dom().contains(#[trigger] ids[i])
            && ingress::reports_closed(sessions[ids[i]].data_tx.inbox(), true)
    &&& forall|peer_id: CoreBluetoothPeerId| #[trigger]
        sessions.dom().contains(peer_id) && !ids.contains(peer_id) ==> ingress::reports_closed(
            sessions[peer_id].data_tx.inbox(),
            false,
        )
}

/// The peers whose sessions have lost their owner.
pub fn closed_central_session_ids<C, K, D: GattInbox, T>(
    sessions: &PeerMap<CentralPeerSession<C, K, D, T>>,
) -> (r: Vec<CoreBluetoothPeerId>)
    requires
        sessions.wf(),
    ensures
        selects_closed(sessions@, r@),
{
    let mut closed: Vec<CoreBluetoothPeerId> = Vec::new();
    let n = sessions.len();
    let mut i: usize = 0;
    proof {
        sessions.lemma_peers();
    }
    while i < n
        invariant
            sessions.wf(),
            n == sessions.peers().len(),
            0 <= i <= n,
            sessions.peers().no_duplicates(),
            closed@.no_duplicates(),
            forall|k: int|
                0 <= k < closed@.len() ==> sessions.peers().take(i as int).contains(
                    #[trigger] closed@[k],
                ) && sessions@.dom().contains(closed@[k]) && ingress::reports_closed(
                    sessions@[closed@[k]].data_tx.inbox(),
                    true,
                ),
            forall|k: int|
                0 <= k < i && !closed@.contains(#[trigger] sessions.peers()[k])
                    ==> ingress::reports_closed(sessions@[sessions.peers()[k]].data_tx.inbox(), false),
        decreases n - i,
    {
        let (peer_id, session) = sessions.at(i);
        let ghost before = closed@;
        assert(sessions.peers().take(i as int + 1) =~= sessions.peers().take(i as int).push(
            peer_id,
        ));
        assert(!before.contains(peer_id)) by {
            if before.contains(peer_id) {
                let k = before.index_of(peer_id);
                let j = sessions.peers().take(i as int).index_of(before[k]);
                assert(sessions.peers().take(i as int).contains(before[k]));
                assert(sessions.peers()[j] == sessions.peers()[i as int]);
            }
        }
        assert forall|k: int| 0 <= k < before.len() implies sessions.peers().take(
            i as int + 1,
        ).contains(#[trigger] before[k]) by {
            let j = sessions.peers().take(i as int).index_of(before[k]);
            assert(sessions.peers().take(i as int).contains(before[k]));
            assert(sessions.peers().take(i as int + 1)[j] == before[k]);
        }
        assert(sessions.peers().take(i as int + 1)[i as int] == peer_id);
        if session.data_receiver_closed() {
            closed.push(peer_id);
            proof {
                assert(closed@[before.len() as int] == peer_id);
                assert forall|k: int|
                    0 <= k < i + 1 && !closed@.contains(#[trigger] sessions.peers()[k]) implies
                    ingress::reports_closed(sessions@[sessions.peers()[k]].data_tx.inbox(), false) by {
                    if before.contains(sessions.peers()[k]) {
                        let at = before.index_of(sessions.peers()[k]);
                        assert(closed@[at] == sessions.peers()[k]);
                    }
                }
            }
        }
        i += 1;
    }
    proof {
        assert forall|peer_id: CoreBluetoothPeerId| #[trigger]
            sessions@.dom().contains(peer_id) && !closed@.contains(peer_id) implies
            ingress::reports_closed(sessions@[peer_id].data_tx.inbox(), false) by {
            assert(sessions.peers().to_set().contains(peer_id));
            let k = sessions.peers().index_of(peer_id);
            assert(sessions.peers()[k] == peer_id);
        }
    }
    closed
}

/// What the central role holds.
#[verifier::reject_recursive_types(C)]
#[verifier::reject_recursive_types(K)]
pub struct CentralModel<P, C, K, D, T> {
    pub recovery: StaleLinkRecovery,
    pub registry: RegistryModel<P, C>,
    pub sessions: Map<CoreBluetoothPeerId, CentralPeerSession<C, K, D, T>>,
    pub guard: GuardModel,
}

/// What the central role holds after sessions were reaped, and what is left to do.
#[verifier::reject_recursive_types(C)]
#[verifier::reject_recursive_types(K)]
pub struct ReapModel<P, C, K, D, T> {
    pub state: CentralModel<P, C, K, D, T>,
    pub cancel: Seq<P>,
    pub deliveries: Seq<CompletionDelivery<K>>,
}

/// The element, where there is one, as a sequence.
pub open spec fn listed<A>(element: Option<A>) -> Seq<A> {
    match element {
        Some(element) => seq![element],
        None => Seq::empty(),
    }
}

impl<P, C, K, D, T> CentralModel<P, C, K, D, T> {
    /// The registry and the guard keep their limits.
    pub open spec fn wf(self) -> bool {
        self.registry.wf() && self.guard.wf()
    }

    /// What the owner of the peer's session is told where the session fails.
    pub open spec fn failure(self, peer_id: CoreBluetoothPeerId) -> Option<CompletionDelivery<K>> {
        if self.sessions.dom().contains(peer_id) {
            session::delivery(self.sessions[peer_id].completion_tx, DialCompletion::Failed)
        } else {
            None
        }
    }

    /// The central role without the peer.
    pub open spec fn finished(self, peer_id: CoreBluetoothPeerId) -> Self {
        CentralModel {
            registry: self.registry.removed(peer_id),
            sessions: self.sessions.remove(peer_id),
            ..self
        }
    }

    /// The central role after the session of the peer was reaped. The cancellation of its link is
    /// remembered where the peer is registered.
    pub open spec fn reaped_one(self, peer_id: CoreBluetoothPeerId, now: u64) -> Self {
        let finished = self.finished(peer_id);
        match self.registry.handle(peer_id) {
            Some(_) => CentralModel { guard: self.guard.cancelled(peer_id, now), ..finished },
            None => finished,
        }
    }

    /// The central role after the sessions of the peers were reaped in turn: each registered link
    /// is cancelled, and each owner that still waits is told of the failure.
    pub open spec fn reaped(
        self,
        closed: Seq<CoreBluetoothPeerId>,
        now: u64,
    ) -> ReapModel<P, C, K, D, T>
        decreases closed.len(),
    {
        if closed.len() == 0 {
            ReapModel { state: self, cancel: Seq::empty(), deliveries: Seq::empty() }
        } else {
            let before = self.reaped(closed.drop_last(), now);
            let peer_id = closed.last();
            ReapModel {
                state: before.state.reaped_one(peer_id, now),
                cancel: before.cancel + listed(before.state.registry.handle(peer_id)),
                deliveries: before.deliveries + listed(before.state.failure(peer_id)),
            }
        }
    }

    /// Reaping keeps the limits, and exactly the reaped peers lose their sessions.
    pub proof fn law_reaping(self, closed: Seq<CoreBluetoothPeerId>, now: u64)
        requires
            self.wf(),
        ensures
            self.reaped(closed, now).state.wf(),
            forall|peer_id: CoreBluetoothPeerId| #[trigger]
                self.reaped(closed, now).state.sessions.dom().contains(peer_id) <==> (
                self.sessions.dom().contains(peer_id) && !closed.contains(peer_id)),
            forall|peer_id: CoreBluetoothPeerId| #[trigger]
                self.reaped(closed, now).state.sessions.dom().contains(peer_id) ==> self.reaped(
                    closed,
                    now,
                ).state.sessions[peer_id] == self.sessions[peer_id],
            self.reaped(closed, now).state.recovery == self.recovery,
        decreases closed.len(),
    {
        if closed.len() > 0 {
            let earlier = closed.drop_last();
            self.law_reaping(earlier, now);
            let before = self.reaped(earlier, now).state;
            before.registry.law_removal(closed.last());
            let after = self.reaped(closed, now).state;
            assert(after == before.reaped_one(closed.last(), now));
            assert forall|peer_id: CoreBluetoothPeerId| #[trigger]
                after.sessions.dom().contains(peer_id) <==> (self.sessions.dom().contains(peer_id)
                    && !closed.contains(peer_id)) by {
                assert(before.sessions.dom().contains(peer_id) <==> (self.sessions.dom().contains(
                    peer_id,
                ) && !earlier.contains(peer_id)));
                if closed.contains(peer_id) {
                    let i = closed.index_of(peer_id);
                    if i < earlier.len() {
                        assert(earlier[i] == peer_id);
                    }
                }
                if earlier.contains(peer_id) {
                    let i = earlier.index_of(peer_id);
                    assert(closed[i] == peer_id);
                }
                assert(closed[closed.len() - 1] == closed.last());
            }
        }
    }
}

/// What reaping leaves to do.
#[verifier::reject_recursive_types(K)]
pub struct Reaped<P, K> {
    /// The peers whose sessions were reaped.
    pub closed: Vec<CoreBluetoothPeerId>,
    /// The connections to cancel.
    pub cancel: Vec<P>,
    /// The owners to tell.
    pub deliveries: Vec<CompletionDelivery<K>>,
}

impl<P, K> Reaped<P, K> {
    /// Nothing is left to do.
    pub fn nothing() -> (r: Self)
        ensures
            r.closed@.len() == 0,
            r.cancel@.len() == 0,
            r.deliveries@.len() == 0,
    {
        Reaped { closed: Vec::new(), cancel: Vec::new(), deliveries: Vec::new() }
    }

    /// Nothing was reaped.
    pub open spec fn is_nothing(self) -> bool {
        self.closed@.len() == 0 && self.cancel@.len() == 0 && self.deliveries@.len() == 0
    }

    /// This is what reaping the closed sessions leaves to do.
    pub open spec fn of<C, D: GattInbox, T>(
        self,
        state: CentralModel<P, C, K, D, T>,
        now: u64,
    ) -> bool {
        &&& selects_closed(state.sessions, self.closed@)
        &&& self.cancel@ == state.reaped(self.closed@, now).cancel
        &&& self.deliveries@ == state.reaped(self.closed@, now).deliveries
    }
}

/// Tells every owner how its dial ended.
pub fn deliver_all<K>(deliveries: Vec<CompletionDelivery<K>>)
    ensures
        forall|i: int| 0 <= i < deliveries@.len() ==> (#[trigger] deliveries@[i]).sent(),
{
    let ghost all = deliveries@;
    let mut rest = deliveries;
    while rest.len() > 0
        invariant
            rest@.len() <= all.len(),
            rest@ == all.take(rest@.len() as int),
            forall|i: int| rest@.len() <= i < all.len() ==> (#[trigger] all[i]).sent(),
        decreases rest@.len(),
    {
        if let Some(delivery) = rest.pop() {
            delivery.send();
            assert(rest@ =~= all.take(rest@.len() as int));
        }
    }
}

/// What is left to do of a peer that is gone.
#[verifier::reject_recursive_types(K)]
pub struct Finished<P, K> {
    /// The handle that was registered.
    pub peripheral: Option<P>,
    /// The owner to tell.
    pub delivery: Option<CompletionDelivery<K>>,
}

impl<P, K> Finished<P, K> {
    /// This is what is left to do of the peer.
    pub open spec fn of<C, D, T>(
        self,
        state: CentralModel<P, C, K, D, T>,
        peer_id: CoreBluetoothPeerId,
    ) -> bool {
        self.peripheral == state.registry.handle(peer_id) && self.delivery == state.failure(peer_id)
    }
}

/// The central role, confined to CoreBluetooth's serial queue. `P` is a peripheral; the other
/// parameters are those of a session.
#[verifier::reject_recursive_types(C)]
#[verifier::reject_recursive_types(K)]
pub struct CentralState<P, C, K, D, T> {
    pub recovery: StaleLinkRecovery,
    pub registry: CentralPeerRegistry<P, C>,
    pub sessions: PeerMap<CentralPeerSession<C, K, D, T>>,
    pub guard: DiscoveryGuard,
}

impl<P, C, K, D, T> View for CentralState<P, C, K, D, T> {
    type V = CentralModel<P, C, K, D, T>;

    open spec fn view(&self) -> CentralModel<P, C, K, D, T> {
        CentralModel {
            recovery: self.recovery,
            registry: self.registry@,
            sessions: self.sessions@,
            guard: self.guard@,
        }
    }
}

impl<P, C, K, D, T> CentralState<P, C, K, D, T> {
    /// Every part is well formed.
    pub open spec fn wf(&self) -> bool {
        self.registry.wf() && self.sessions.wf() && self.guard.wf()
    }

    /// A central role with nothing registered.
    pub fn new(
        recovery: StaleLinkRecovery,
        peripheral_capacity: usize,
        restored_capacity: usize,
        callback_budget: usize,
    ) -> (r: Self)
        ensures
            r.wf(),
            r@ == (CentralModel {
                recovery,
                registry: RegistryModel::<P, C>::empty(
                    peripheral_capacity as nat,
                    restored_capacity as nat,
                    callback_budget as nat,
                ),
                sessions: Map::<CoreBluetoothPeerId, CentralPeerSession<C, K, D, T>>::empty(),
                guard: GuardModel::empty(),
            }),
    {
        CentralState {
            recovery,
            registry: CentralPeerRegistry::new(
                peripheral_capacity,
                restored_capacity,
                callback_budget,
            ),
            sessions: PeerMap::new(),
            guard: DiscoveryGuard::new(),
        }
    }

    /// Forgets the peer and its session.
    pub fn finish_peer(&mut self, peer_id: CoreBluetoothPeerId) -> (r: Finished<P, K>)
        requires
            old(self).wf(),
        ensures
            final(self).wf(),
            final(self)@ == old(self)@.finished(peer_id),
            r.of(old(self)@, peer_id),
    {
        let delivery = match self.sessions.remove(peer_id) {
            Some(session) => session.fail(),
            None => None,
        };
        let peripheral = self.registry.remove_peer(peer_id);
        Finished { peripheral, delivery }
    }

    /// Forgets the peer without touching its session. Its handle is to be cancelled where the
    /// caller owns the connection.
    pub fn discard_peer(&mut self, peer_id: CoreBluetoothPeerId) -> (r: Option<P>)
        requires
            old(self).wf(),
        ensures
            final(self).wf(),
            final(self)@ == (CentralModel {
                registry: old(self)@.registry.removed(peer_id),
                ..old(self)@
            }),
            r == old(self)@.registry.handle(peer_id),
    {
        self.registry.remove_peer(peer_id)
    }

    /// Removes the sessions whose owners are gone, together with what is registered of their peers.
    pub fn reap_closed_sessions_at(&mut self, now: u64) -> (r: Reaped<P, K>) where D: GattInbox
        requires
            old(self).wf(),
        ensures
            final(self).wf(),
            r.of(old(self)@, now),
            final(self)@ == old(self)@.reaped(r.closed@, now).state,
    {
        let closed = closed_central_session_ids(&self.sessions);
        let mut cancel: Vec<P> = Vec::new();
        let mut deliveries: Vec<CompletionDelivery<K>> = Vec::new();
        let mut i: usize = 0;
        assert(closed@.take(0) =~= Seq::<CoreBluetoothPeerId>::empty());
        while i < closed.len()
            invariant
                0 <= i <= closed@.len(),
                self.wf(),
                ({
                    let reaped = old(self)@.reaped(closed@.take(i as int), now);
                    &&& self@ == reaped.state
                    &&& cancel@ == reaped.cancel
                    &&& deliveries@ == reaped.deliveries
                }),
            decreases closed@.len() - i,
        {
            let peer_id = closed[i];
            let ghost before = self@;
            assert(closed@.take(i as int + 1).drop_last() =~= closed@.take(i as int));
            let ghost cancel_before = cancel@;
            let ghost deliveries_before = deliveries@;
            let finished = self.finish_peer(peer_id);
            if let Some(delivery) = finished.delivery {
                deliveries.push(delivery);
            }
            if let Some(peripheral) = finished.peripheral {
                self.guard.record_stale_cancellation(peer_id, now);
                cancel.push(peripheral);
            }
            assert(deliveries@ =~= deliveries_before + listed(before.failure(peer_id)));
            assert(cancel@ =~= cancel_before + listed(before.registry.handle(peer_id)));
            i += 1;
        }
        assert(closed@.take(closed@.len() as int) =~= closed@);
        Reaped { closed, cancel, deliveries }
    }
}

impl<P, C, K, D, T> CentralModel<P, C, K, D, T> {
    /// What the owners of the peers' sessions are told where the sessions fail.
    pub open spec fn failures(self, peers: Seq<CoreBluetoothPeerId>) -> Seq<CompletionDelivery<K>>
        decreases peers.len(),
    {
        if peers.len() == 0 {
            Seq::empty()
        } else {
            self.failures(peers.drop_last()) + listed(self.failure(peers.last()))
        }
    }

    /// The central role with the radio off: nothing is held.
    pub open spec fn radio_off(self) -> Self {
        CentralModel {
            recovery: self.recovery,
            registry: self.registry.drained(),
            sessions: Map::empty(),
            guard: GuardModel::empty(),
        }
    }

    /// Once the radio is off, nothing is held of any peer: no session is left to fail, and no
    /// connection is left to cancel a second time.
    pub proof fn law_radio_off_forgets_everyone(self, peer_id: CoreBluetoothPeerId)
        requires
            self.wf(),
        ensures
            self.radio_off().wf(),
            self.radio_off().failure(peer_id) is None,
            self.radio_off().registry.handle(peer_id) is None,
            self.radio_off().registry.owned().len() == 0,
            self.radio_off().registry.restored.len() == 0,
            self.radio_off().radio_off() == self.radio_off(),
    {
        self.registry.law_nothing_is_cancelled_twice(peer_id);
    }

    /// A peer that is finished is finished for good: nobody is told twice, and nothing is cancelled
    /// twice.
    pub proof fn law_finishing_happens_once(self, peer_id: CoreBluetoothPeerId)
        requires
            self.wf(),
        ensures
            self.finished(peer_id).wf(),
            self.finished(peer_id).failure(peer_id) is None,
            self.finished(peer_id).registry.handle(peer_id) is None,
    {
        self.registry.law_removal(peer_id);
    }

    /// The central role with another registry.
    pub open spec fn with_registry(self, registry: RegistryModel<P, C>) -> Self {
        CentralModel { registry, ..self }
    }
}

/// What switching the radio off leaves to do.
#[verifier::reject_recursive_types(K)]
pub struct RadioShutdown<P, K> {
    /// The peers whose sessions failed.
    pub peers: Vec<CoreBluetoothPeerId>,
    /// The owners to tell.
    pub deliveries: Vec<CompletionDelivery<K>>,
    /// The connections to cancel: restored, dialing and active ones, each once.
    pub cancel: Vec<P>,
}

/// What the beginning of a session leaves to do.
#[verifier::reject_recursive_types(K)]
pub struct BeginStep<P, K> {
    /// The session is under way.
    pub began: bool,
    /// What was reaped on the way.
    pub reaped: Reaped<P, K>,
    /// The connection to cancel.
    pub cancel: Option<P>,
    /// The owner to tell.
    pub delivery: Option<CompletionDelivery<K>>,
}

impl<P, K> BeginStep<P, K> {
    /// This is what the beginning of the session leaves to do. With the radio off, and where the
    /// peer has a session already, the dialer is turned down. Otherwise the session begins where
    /// the peer is being dialed and the callbacks of a restored one could be handed over; where it
    /// does not, the peer is forgotten, its connection cancelled and its dialer told of the
    /// failure.
    pub open spec fn of<C, D: GattInbox, T>(
        self,
        before: CentralModel<P, C, K, D, T>,
        after: CentralModel<P, C, K, D, T>,
        radio_enabled: bool,
        peer_id: CoreBluetoothPeerId,
        session: CentralPeerSession<C, K, D, T>,
        now: u64,
    ) -> bool {
        if radio_enabled {
            let reaped = before.reaped(self.reaped.closed@, now).state;
            let registry = reaped.registry;
            &&& self.reaped.of(before, now)
            &&& if reaped.sessions.dom().contains(peer_id) {
                &&& after == reaped.with_registry(registry.activated(peer_id))
                &&& !self.began && self.cancel is None
                &&& self.delivery == session::delivery(
                    session.completion_tx,
                    DialCompletion::Rejected(DialRejection::ExistingCentralSession),
                )
            } else if self.began {
                &&& registry.dialing(peer_id)
                &&& match registry.record(peer_id) {
                    Some(k) => session.hands_over(
                        after.sessions[peer_id],
                        registry.restored[k].callbacks,
                        true,
                    ),
                    None => after.sessions[peer_id] == session,
                }
                &&& after == (CentralModel {
                    registry: registry.begun(peer_id),
                    sessions: reaped.sessions.insert(peer_id, after.sessions[peer_id]),
                    ..reaped
                })
                &&& self.cancel is None && self.delivery is None
            } else {
                &&& !registry.dialing(peer_id) || (registry.record(peer_id) matches Some(k)
                    && exists|handed: CentralPeerSession<C, K, D, T>| #[trigger]
                    session.hands_over(handed, registry.restored[k].callbacks, false))
                &&& after == reaped.with_registry(registry.begun(peer_id).removed(peer_id))
                &&& self.cancel == registry.handle(peer_id)
                &&& self.delivery == session::delivery(
                    session.completion_tx,
                    DialCompletion::Failed,
                )
            }
        } else {
            &&& after == before.with_registry(before.registry.removed(peer_id))
            &&& !self.began && self.reaped.is_nothing()
            &&& self.cancel == before.registry.handle(peer_id)
            &&& self.delivery == session::delivery(
                session.completion_tx,
                DialCompletion::Rejected(DialRejection::RadioOff),
            )
        }
    }
}

impl<P, C, K, D, T> CentralState<P, C, K, D, T> {
    /// The next restored peer, while the radio is on.
    pub fn offer_restored(&mut self, radio_enabled: bool) -> (r: Option<CoreBluetoothPeerId>)
        requires
            old(self).wf(),
        ensures
            final(self).wf(),
            !radio_enabled ==> r is None && final(self)@ == old(self)@,
            radio_enabled ==> final(self)@ == old(self)@.with_registry(
                old(self)@.registry.offered(),
            ) && r == match search::first_where(
                old(self)@.registry.restored,
                registry_model::is_queued(),
            ) {
                Some(k) => Some(old(self)@.registry.restored[k].peer_id),
                None => None,
            },
    {
        if !radio_enabled {
            return None;
        }
        self.registry.offer_restored()
    }

    /// The next sighting, while the radio is on, and whether more of them wait.
    pub fn pop_sighting(&mut self, radio_enabled: bool) -> (r: (Option<Sighting>, bool))
        requires
            old(self).wf(),
        ensures
            final(self).wf(),
            !radio_enabled ==> r == (None::<Sighting>, false) && final(self)@ == old(self)@,
            radio_enabled ==> final(self)@ == old(self)@.with_registry(
                old(self)@.registry.sighted(),
            ) && r.0 == match search::first_where(
                old(self)@.registry.peripherals,
                registry_model::is_pending(),
            ) {
                Some(i) => Some(
                    Sighting {
                        address: old(self)@.registry.peripherals[i].address,
                        rssi: old(self)@.registry.peripherals[i].rssi,
                    },
                ),
                None => None,
            } && r.1 == exists|i: int|
                #![trigger final(self)@.registry.peripherals[i]]
                0 <= i < final(self)@.registry.peripherals.len()
                    && final(self)@.registry.peripherals[i].pending_sighting,
    {
        if !radio_enabled {
            return (None, false);
        }
        self.registry.pop_sighting()
    }

    /// What a dial of the address finds. Closed sessions are removed first, so that a dropped link
    /// keeps neither its entry nor its share of the capacity.
    pub fn claim(&mut self, radio_enabled: bool, address: BleAddress, now: u64) -> (r: (
        Reaped<P, K>,
        CentralDialCandidate<P>,
    )) where P: Clone, D: GattInbox
        requires
            old(self).wf(),
        ensures
            final(self).wf(),
            !radio_enabled ==> r.0.is_nothing() && r.1 is Missing && final(self)@ == old(self)@,
            radio_enabled ==> {
                let reaped = old(self)@.reaped(r.0.closed@, now).state;
                &&& r.0.of(old(self)@, now)
                &&& final(self)@ == reaped.with_registry(reaped.registry.claimed(address))
                &&& match r.1 {
                    CentralDialCandidate::Ready { peer_id, peripheral, rssi, restored } => {
                        let entry = reaped.registry.peripherals[reaped.registry.slot(address)->0];
                        &&& reaped.registry.claimable(address)
                        &&& peer_id == entry.peer_id
                        &&& cloned(entry.peripheral, peripheral)
                        &&& rssi == entry.rssi
                        &&& restored == (entry.state == CentralPeripheralState::Restored)
                    },
                    CentralDialCandidate::Busy => reaped.registry.slot(address) is Some
                        && !reaped.registry.claimable(address),
                    CentralDialCandidate::Missing => reaped.registry.slot(address) is None,
                }
            },
    {
        if !radio_enabled {
            return (Reaped::nothing(), CentralDialCandidate::Missing);
        }
        let reaped = self.reap_closed_sessions_at(now);
        let candidate = self.registry.claim(address);
        (reaped, candidate)
    }

    /// Switches the logical radio. Disabling fails every session, clears all callback and admission
    /// state, and names each restored, dialing, or active peripheral once for cancellation.
    pub fn set_radio_enabled(&mut self, enabled: bool) -> (r: RadioShutdown<P, K>)
        requires
            old(self).wf(),
        ensures
            final(self).wf(),
            enabled ==> final(self)@ == old(self)@ && r.peers@.len() == 0 && r.deliveries@.len()
                == 0 && r.cancel@.len() == 0,
            !enabled ==> {
                &&& final(self)@ == old(self)@.radio_off()
                &&& r.peers@.no_duplicates()
                &&& r.peers@.to_set() == old(self)@.sessions.dom()
                &&& r.deliveries@ == old(self)@.failures(r.peers@)
                &&& r.cancel@ == old(self)@.registry.owned()
            },
    {
        if enabled {
            return RadioShutdown {
                peers: Vec::new(),
                deliveries: Vec::new(),
                cancel: Vec::new(),
            };
        }
        let peers = self.sessions.keys();
        let mut deliveries: Vec<CompletionDelivery<K>> = Vec::new();
        let mut i: usize = 0;
        assert(peers@.take(0) =~= Seq::<CoreBluetoothPeerId>::empty());
        while i < peers.len()
            invariant
                0 <= i <= peers@.len(),
                self.wf(),
                peers@.no_duplicates(),
                peers@.to_set() == old(self)@.sessions.dom(),
                self@ == (CentralModel { sessions: self@.sessions, ..old(self)@ }),
                forall|k: int|
                    i <= k < peers@.len() ==> self@.sessions.dom().contains(#[trigger] peers@[k])
                        && self@.sessions[peers@[k]] == old(self)@.sessions[peers@[k]],
                forall|peer_id: CoreBluetoothPeerId| #[trigger]
                    self@.sessions.dom().contains(peer_id) ==> old(
                        self,
                    )@.sessions.dom().contains(peer_id) && !peers@.take(i as int).contains(peer_id),
                deliveries@ == old(self)@.failures(peers@.take(i as int)),
            decreases peers@.len() - i,
        {
            let peer_id = peers[i];
            let ghost before = deliveries@;
            assert(peers@.take(i as int + 1).drop_last() =~= peers@.take(i as int));
            let removed = self.sessions.remove(peer_id);
            if let Some(session) = removed {
                if let Some(delivery) = session.fail() {
                    deliveries.push(delivery);
                }
            }
            proof {
                assert(old(self)@.sessions.dom().contains(peers@[i as int])) by {
                    assert(peers@.to_set().contains(peers@[i as int]));
                }
                assert(deliveries@ =~= before + listed(old(self)@.failure(peer_id)));
                assert forall|other: CoreBluetoothPeerId| #[trigger]
                    self@.sessions.dom().contains(other) implies !peers@.take(
                    i as int + 1,
                ).contains(other) by {
                    if peers@.take(i as int + 1).contains(other) {
                        let k = peers@.take(i as int + 1).index_of(other);
                        if k < i {
                            assert(peers@.take(i as int)[k] == other);
                        }
                    }
                }
            }
            i += 1;
        }
        proof {
            assert(peers@.take(i as int) =~= peers@);
            assert forall|peer_id: CoreBluetoothPeerId| !self@.sessions.dom().contains(
                peer_id,
            ) by {
                if self@.sessions.dom().contains(peer_id) {
                    assert(peers@.to_set().contains(peer_id));
                }
            }
            assert(self@.sessions =~= Map::empty());
        }
        let cancel = self.registry.drain_owned();
        self.guard = DiscoveryGuard::new();
        RadioShutdown { peers, deliveries, cancel }
    }

    /// Begins the session of a dialed peer, with the callbacks that a restored one has waiting.
    pub fn begin_session(
        &mut self,
        radio_enabled: bool,
        peer_id: CoreBluetoothPeerId,
        session: CentralPeerSession<C, K, D, T>,
        now: u64,
    ) -> (r: BeginStep<P, K>) where D: GattInbox
        requires
            old(self).wf(),
        ensures
            final(self).wf(),
            r.of(old(self)@, final(self)@, radio_enabled, peer_id, session, now),
    {
        if !radio_enabled {
            let cancel = self.registry.remove_peer(peer_id);
            return BeginStep {
                began: false,
                reaped: Reaped::nothing(),
                cancel,
                delivery: session.reject(DialRejection::RadioOff),
            };
        }
        let reaped = self.reap_closed_sessions_at(now);
        let ghost mid = self@;
        proof {
            self.registry.lemma_wf();
            mid.registry.lemma_begun_handle(peer_id);
        }
        if self.sessions.contains_key(peer_id) {
            self.registry.mark_active(peer_id);
            return BeginStep {
                began: false,
                reaped,
                cancel: None,
                delivery: session.reject(DialRejection::ExistingCentralSession),
            };
        }
        let mut session = session;
        let restored = match self.registry.begin_session(peer_id) {
            Ok(None) => true,
            Ok(Some(callbacks)) => session.restore_callbacks(callbacks),
            Err(()) => false,
        };
        if !restored {
            let cancel = self.registry.remove_peer(peer_id);
            return BeginStep { began: false, reaped, cancel, delivery: session.fail() };
        }
        self.sessions.insert(peer_id, session);
        BeginStep { began: true, reaped, cancel: None, delivery: None }
    }
}

/// What the beginning of a dial leaves to do.
#[verifier::reject_recursive_types(K)]
pub struct DialStep<P, K> {
    /// The peripheral's callbacks are wanted from now on.
    pub attach: bool,
    /// The dialed connection itself is cancelled first.
    pub cancel_dialed: bool,
    /// What became of the session.
    pub begin: BeginStep<P, K>,
    /// What is asked of CoreBluetooth once everything else is done.
    pub start: Option<DialStart>,
}

impl<P, C, K, D, T> CentralState<P, C, K, D, T> {
    /// Begins a dial from what is known of the link: a rejected peer is forgotten and its dialer
    /// told so; otherwise the session begins, and only then is anything asked of CoreBluetooth.
    pub fn begin_dial(
        &mut self,
        radio_enabled: bool,
        peer_id: CoreBluetoothPeerId,
        session: CentralPeerSession<C, K, D, T>,
        facts: DialFacts,
        now: u64,
    ) -> (r: DialStep<P, K>) where D: GattInbox
        requires
            old(self).wf(),
        ensures
            final(self).wf(),
            match facts.plan() {
                DialPlan::Reject { rejection, cancel_connection } => {
                    &&& final(self)@ == old(self)@.with_registry(
                        old(self)@.registry.removed(peer_id),
                    )
                    &&& !r.attach && r.start is None
                    &&& r.cancel_dialed == cancel_connection
                    &&& !r.begin.began && r.begin.reaped.is_nothing() && r.begin.cancel is None
                    &&& r.begin.delivery == session::delivery(
                        session.completion_tx,
                        DialCompletion::Rejected(rejection),
                    )
                },
                DialPlan::Begin(start) => {
                    &&& r.attach && !r.cancel_dialed
                    &&& r.start == if r.begin.began {
                        Some(start)
                    } else {
                        None
                    }
                    &&& r.begin.of(
                        old(self)@,
                        final(self)@,
                        radio_enabled,
                        peer_id,
                        session,
                        now,
                    )
                },
            },
    {
        match begin_dial(facts) {
            DialPlan::Reject { rejection, cancel_connection } => {
                let _ = self.registry.remove_peer(peer_id);
                DialStep {
                    attach: false,
                    cancel_dialed: cancel_connection,
                    begin: BeginStep {
                        began: false,
                        reaped: Reaped::nothing(),
                        cancel: None,
                        delivery: session.reject(rejection),
                    },
                    start: None,
                }
            },
            DialPlan::Begin(start) => {
                let begin = self.begin_session(radio_enabled, peer_id, session, now);
                DialStep {
                    attach: true,
                    cancel_dialed: false,
                    start: if begin.began {
                        Some(start)
                    } else {
                        None
                    },
                    begin,
                }
            },
        }
    }
}

} // verus!
