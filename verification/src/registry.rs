//! Bounded ownership of central-role peripherals.

use crate::peer::{BleAddress, CoreBluetoothPeerId, Sighting};
use crate::registry_model;
use crate::registry_model::{
    CentralDialCandidate, CentralPeripheral, CentralPeripheralState, RegistryModel,
    RestoredAdmission, RestoredBufferResult, RestoredPeer, RestoredPeerModel, RestoredPhase,
};
use crate::restored::RestoredCallbackBuffer;
use crate::search;
use crate::search::position;
use std::collections::VecDeque;
use vstd::prelude::*;

verus! {

/// Bounded central-role ownership confined to CoreBluetooth's serial queue.
///
/// Restored peers retain their admission slot while queued, offered, and claimed, so popping a
/// synthetic sighting never creates an unaccounted callback buffer. Candidate entries use a
/// larger, independently supplied capacity and evict only advisory observations; live, dialing,
/// and restored peers are never evicted.
pub struct CentralPeerRegistry<P, C> {
    peripheral_capacity: usize,
    restored_capacity: usize,
    callback_budget: usize,
    peripherals: VecDeque<CentralPeripheral<P>>,
    restored: VecDeque<RestoredPeer<C>>,
}

/// The model of each restored peer.
pub open spec fn restored_view<C>() -> spec_fn(RestoredPeer<C>) -> RestoredPeerModel<C> {
    |peer: RestoredPeer<C>| peer@
}

impl<P, C> View for CentralPeerRegistry<P, C> {
    type V = RegistryModel<P, C>;

    closed spec fn view(&self) -> RegistryModel<P, C> {
        RegistryModel {
            peripheral_capacity: self.peripheral_capacity as nat,
            restored_capacity: self.restored_capacity as nat,
            callback_budget: self.callback_budget as nat,
            peripherals: self.peripherals@,
            restored: self.restored@.map_values(restored_view()),
        }
    }
}

impl<P, C> CentralPeerRegistry<P, C> {
    /// The registry is well formed and so is every callback buffer in it.
    pub closed spec fn wf(&self) -> bool {
        &&& self@.wf()
        &&& forall|i: int|
            0 <= i < self.restored@.len() ==> (#[trigger] self.restored@[i]).callbacks.wf()
    }

    /// A well-formed registry has a well-formed model.
    pub proof fn lemma_wf(&self)
        requires
            self.wf(),
        ensures
            self@.wf(),
    {
    }

    /// An empty registry.
    pub fn new(
        peripheral_capacity: usize,
        restored_capacity: usize,
        callback_budget: usize,
    ) -> (r: Self)
        ensures
            r.wf(),
            r@ == RegistryModel::<P, C>::empty(
                peripheral_capacity as nat,
                restored_capacity as nat,
                callback_budget as nat,
            ),
    {
        let r = CentralPeerRegistry {
            peripheral_capacity,
            restored_capacity,
            callback_budget,
            peripherals: VecDeque::new(),
            restored: VecDeque::new(),
        };
        assert(r@.restored =~= Seq::<RestoredPeerModel<C>>::empty());
        r
    }

    fn entry_position(&self, peer_id: CoreBluetoothPeerId) -> (r: Option<usize>)
        ensures
            match r {
                Some(i) => self@.entry(peer_id) == Some(i as int) && search::is_first(
                    self.peripherals@,
                    registry_model::peer_is(peer_id),
                    i as int,
                ),
                None => self@.entry(peer_id) is None && forall|j: int|
                    0 <= j < self.peripherals@.len() ==> (#[trigger] self.peripherals@[j]).peer_id
                        != peer_id,
            },
    {
        let ghost p = registry_model::peer_is::<P>(peer_id);
        let test = |entry: &CentralPeripheral<P>| -> (b: bool)
            ensures
                b == (entry.peer_id == peer_id),
            { entry.peer_id == peer_id };
        let r = position(&self.peripherals, test, Ghost(p));
        proof {
            if r is None {
                assert forall|j: int| 0 <= j < self.peripherals@.len() implies (
                #[trigger] self.peripherals@[j]).peer_id != peer_id by {
                    assert(!p(self.peripherals@[j]));
                }
            }
        }
        r
    }

    fn slot_position(&self, address: BleAddress) -> (r: Option<usize>)
        ensures
            match r {
                Some(i) => self@.slot(address) == Some(i as int) && search::is_first(
                    self.peripherals@,
                    registry_model::at_address(address),
                    i as int,
                ),
                None => self@.slot(address) is None && forall|j: int|
                    0 <= j < self.peripherals@.len() ==> (#[trigger] self.peripherals@[j]).address
                        != address,
            },
    {
        let ghost p = registry_model::at_address::<P>(address);
        let test = |entry: &CentralPeripheral<P>| -> (b: bool)
            ensures
                b == (entry.address == address),
            { entry.address == address };
        let r = position(&self.peripherals, test, Ghost(p));
        proof {
            if r is None {
                assert forall|j: int| 0 <= j < self.peripherals@.len() implies (
                #[trigger] self.peripherals@[j]).address != address by {
                    assert(!p(self.peripherals@[j]));
                }
            }
        }
        r
    }

    fn record_position(&self, peer_id: CoreBluetoothPeerId) -> (r: Option<usize>)
        ensures
            match r {
                Some(i) => self@.record(peer_id) == Some(i as int) && search::is_first(
                    self@.restored,
                    registry_model::restored_is(peer_id),
                    i as int,
                ),
                None => self@.record(peer_id) is None && forall|j: int|
                    0 <= j < self@.restored.len() ==> (#[trigger] self@.restored[j]).peer_id
                        != peer_id,
            },
    {
        let ghost q = |peer: RestoredPeer<C>| peer.peer_id == peer_id;
        let test = |peer: &RestoredPeer<C>| -> (b: bool)
            ensures
                b == (peer.peer_id == peer_id),
            { peer.peer_id == peer_id };
        let r = position(&self.restored, test, Ghost(q));
        proof {
            let p = registry_model::restored_is::<C>(peer_id);
            search::lemma_first_where_map(self.restored@, restored_view(), q, p);
            search::lemma_first_where(self@.restored, p);
            if r is None {
                assert forall|j: int| 0 <= j < self@.restored.len() implies (
                #[trigger] self@.restored[j]).peer_id != peer_id by {
                    assert(!p(self@.restored[j]));
                }
            }
        }
        r
    }

    fn make_peripheral_room(&mut self) -> (r: bool)
        requires
            old(self)@.wf(),
        ensures
            final(self).restored == old(self).restored,
            final(self).peripheral_capacity == old(self).peripheral_capacity,
            final(self).restored_capacity == old(self).restored_capacity,
            final(self).callback_budget == old(self).callback_budget,
            ({
                let entries = old(self).peripherals@;
                let observed = search::first_where(entries, registry_model::is_observed());
                if entries.len() < old(self).peripheral_capacity {
                    r && final(self).peripherals@ == entries
                } else {
                    &&& r == observed is Some
                    &&& final(self).peripherals@ == search::without(entries, observed)
                }
            }),
    {
        if self.peripherals.len() < self.peripheral_capacity {
            return true;
        }
        let test = |entry: &CentralPeripheral<P>| -> (b: bool)
            ensures
                b == (entry.state == CentralPeripheralState::Observed),
            { entry.state == CentralPeripheralState::Observed };
        match position(&self.peripherals, test, Ghost(registry_model::is_observed::<P>())) {
            Some(i) => {
                self.peripherals.remove(i);
                true
            },
            None => false,
        }
    }

    fn make_way(&mut self, address: BleAddress) -> (r: bool)
        requires
            old(self)@.wf(),
        ensures
            final(self).restored == old(self).restored,
            match old(self)@.make_way(address) {
                Some(rest) => r && final(self)@ == (RegistryModel {
                    peripherals: rest,
                    ..old(self)@
                }),
                None => !r && final(self)@ == old(self)@,
            },
    {
        match self.slot_position(address) {
            Some(i) => {
                if self.peripherals[i].state != CentralPeripheralState::Observed {
                    return false;
                }
                self.peripherals.remove(i);
                true
            },
            None => self.make_peripheral_room(),
        }
    }

    /// Registers a peripheral that CoreBluetooth restored, and queues its peer for the host. A
    /// peer still queued gets the newer handle; a peer further on keeps what it has.
    pub fn admit_restored(&mut self, peer_id: CoreBluetoothPeerId, peripheral: P) -> (r:
        RestoredAdmission)
        requires
            old(self).wf(),
        ensures
            final(self).wf(),
            r == old(self)@.admission(peer_id),
            final(self)@ == old(self)@.admitted(peer_id, peripheral),
    {
        proof {
            self@.law_admission_keeps_wf(peer_id, peripheral);
        }
        if let Some(r) = self.record_position(peer_id) {
            proof {
                assert(self@.restored[r as int].peer_id == peer_id);
                self@.lemma_owner_has_entry(r as int);
            }
            if self.restored[r].phase != RestoredPhase::Queued {
                return RestoredAdmission::AlreadyOwned;
            }
            if let Some(i) = self.entry_position(peer_id) {
                if let Some(entry) = self.peripherals.remove(i) {
                    let updated = CentralPeripheral { peripheral, rssi: None, ..entry };
                    self.peripherals.insert(i, updated);
                    proof {
                        search::lemma_replace(old(self).peripherals@, i as int, updated);
                    }
                }
                return RestoredAdmission::Updated;
            }
            return RestoredAdmission::Full;
        }
        if self.restored.len() >= self.restored_capacity {
            return RestoredAdmission::Full;
        }
        if let Some(i) = self.entry_position(peer_id) {
            if self.peripherals[i].state != CentralPeripheralState::Observed {
                return RestoredAdmission::AlreadyOwned;
            }
        }
        let address = peer_id.address();
        if !self.make_way(address) {
            return RestoredAdmission::Full;
        }
        self.peripherals.push_back(
            CentralPeripheral {
                peer_id,
                address,
                peripheral,
                rssi: None,
                state: CentralPeripheralState::Restored,
                pending_sighting: false,
            },
        );
        let record = RestoredPeer {
            peer_id,
            phase: RestoredPhase::Queued,
            callbacks: RestoredCallbackBuffer::new(self.callback_budget),
        };
        let ghost before = self.restored@;
        self.restored.push_back(record);
        proof {
            assert(self@.restored =~= old(self)@.restored.push(record@));
            assert forall|k: int| 0 <= k < self.restored@.len() implies (
            #[trigger] self.restored@[k]).callbacks.wf() by {
                if k < before.len() {
                    assert(self.restored@[k] == old(self).restored@[k]);
                }
            }
        }
        RestoredAdmission::Admitted
    }

    /// Registers the most recent handle and signal of an observed peer. Address collisions are
    /// deterministic: an advisory observation replaces an older advisory observation, while a
    /// restored, dialing, or active owner rejects the colliding newcomer. Says whether the peer
    /// was registered.
    pub fn observe(
        &mut self,
        peer_id: CoreBluetoothPeerId,
        peripheral: P,
        rssi: Option<i8>,
    ) -> (r: bool)
        requires
            old(self).wf(),
        ensures
            final(self).wf(),
            r == old(self)@.make_way(peer_id.spec_address()) is Some,
            final(self)@ == old(self)@.observe(peer_id, peripheral, rssi),
    {
        proof {
            self@.law_observe_keeps_wf(peer_id, peripheral, rssi);
        }
        let address = peer_id.address();
        if !self.make_way(address) {
            return false;
        }
        self.peripherals.push_back(
            CentralPeripheral {
                peer_id,
                address,
                peripheral,
                rssi,
                state: CentralPeripheralState::Observed,
                pending_sighting: true,
            },
        );
        true
    }

    /// Offers the restored peer that has waited longest.
    pub fn offer_restored(&mut self) -> (r: Option<CoreBluetoothPeerId>)
        requires
            old(self).wf(),
        ensures
            final(self).wf(),
            final(self)@ == old(self)@.offered(),
            r == match search::first_where(old(self)@.restored, registry_model::is_queued()) {
                Some(k) => Some(old(self)@.restored[k].peer_id),
                None => None,
            },
    {
        proof {
            self@.law_offer_keeps_wf();
        }
        let ghost q = |peer: RestoredPeer<C>| peer.phase == RestoredPhase::Queued;
        let test = |peer: &RestoredPeer<C>| -> (b: bool)
            ensures
                b == (peer.phase == RestoredPhase::Queued),
            { peer.phase == RestoredPhase::Queued };
        let found = position(&self.restored, test, Ghost(q));
        proof {
            search::lemma_first_where_map(
                self.restored@,
                restored_view(),
                q,
                registry_model::is_queued::<C>(),
            );
        }
        match found {
            Some(i) => {
                self.set_phase(i, RestoredPhase::Offered);
                Some(self.restored[i].peer_id)
            },
            None => None,
        }
    }

    fn set_phase(&mut self, i: usize, phase: RestoredPhase)
        requires
            i < old(self).restored@.len(),
            forall|k: int|
                0 <= k < old(self).restored@.len() ==> (
                #[trigger] old(self).restored@[k]).callbacks.wf(),
        ensures
            final(self).peripherals == old(self).peripherals,
            final(self)@ == (RegistryModel {
                restored: old(self)@.restored.update(
                    i as int,
                    RestoredPeerModel { phase, ..old(self)@.restored[i as int] },
                ),
                ..old(self)@
            }),
            final(self).restored@.len() == old(self).restored@.len(),
            forall|k: int|
                0 <= k < final(self).restored@.len() ==> (
                #[trigger] final(self).restored@[k]).callbacks.wf(),
            final(self).restored@[i as int].peer_id == old(self).restored@[i as int].peer_id,
    {
        if let Some(peer) = self.restored.remove(i) {
            let moved = RestoredPeer { phase, ..peer };
            self.restored.insert(i, moved);
            proof {
                search::lemma_replace(old(self).restored@, i as int, moved);
                assert(self@.restored =~= old(self)@.restored.update(
                    i as int,
                    RestoredPeerModel { phase, ..old(self)@.restored[i as int] },
                ));
            }
        }
    }

    fn set_entry_state(&mut self, i: usize, state: CentralPeripheralState, pending_sighting: bool)
        requires
            i < old(self).peripherals@.len(),
        ensures
            final(self).restored == old(self).restored,
            final(self)@ == (RegistryModel {
                peripherals: old(self)@.peripherals.update(
                    i as int,
                    CentralPeripheral {
                        state,
                        pending_sighting,
                        ..old(self)@.peripherals[i as int]
                    },
                ),
                ..old(self)@
            }),
    {
        if let Some(entry) = self.peripherals.remove(i) {
            let changed = CentralPeripheral { state, pending_sighting, ..entry };
            self.peripherals.insert(i, changed);
            proof {
                search::lemma_replace(old(self).peripherals@, i as int, changed);
            }
        }
    }

    /// Takes the peripheral at the address for a dial. An owned peripheral is busy, except a
    /// restored one that was offered.
    pub fn claim(&mut self, address: BleAddress) -> (r: CentralDialCandidate<P>) where P: Clone
        requires
            old(self).wf(),
        ensures
            final(self).wf(),
            final(self)@ == old(self)@.claimed(address),
            match r {
                CentralDialCandidate::Ready { peer_id, peripheral, rssi, restored } => {
                    &&& old(self)@.claimable(address)
                    &&& ({
                        let entry = old(self)@.peripherals[old(self)@.slot(address)->0];
                        &&& peer_id == entry.peer_id
                        &&& cloned(entry.peripheral, peripheral)
                        &&& rssi == entry.rssi
                        &&& restored == (entry.state == CentralPeripheralState::Restored)
                    })
                },
                CentralDialCandidate::Busy => old(self)@.slot(address) is Some && !old(
                    self,
                )@.claimable(address),
                CentralDialCandidate::Missing => old(self)@.slot(address) is None,
            },
    {
        proof {
            self@.law_claim_keeps_wf(address);
        }
        let i = match self.slot_position(address) {
            Some(i) => i,
            None => {
                return CentralDialCandidate::Missing;
            },
        };
        let peer_id = self.peripherals[i].peer_id;
        let restored = match self.peripherals[i].state {
            CentralPeripheralState::Observed => false,
            CentralPeripheralState::Restored => {
                let r = match self.record_position(peer_id) {
                    Some(r) => r,
                    None => {
                        return CentralDialCandidate::Busy;
                    },
                };
                if self.restored[r].phase != RestoredPhase::Offered {
                    return CentralDialCandidate::Busy;
                }
                self.set_phase(r, RestoredPhase::Claimed);
                true
            },
            CentralPeripheralState::Dialing | CentralPeripheralState::Active => {
                return CentralDialCandidate::Busy;
            },
        };
        let peripheral = self.peripherals[i].peripheral.clone();
        let rssi = self.peripherals[i].rssi;
        self.set_entry_state(i, CentralPeripheralState::Dialing, false);
        CentralDialCandidate::Ready { peer_id, peripheral, rssi, restored }
    }

    /// Turns the dial of a peer into an active session. A restored peer hands over its callbacks
    /// and gives its admission slot back.
    pub fn begin_session(&mut self, peer_id: CoreBluetoothPeerId) -> (r: Result<
        Option<RestoredCallbackBuffer<C>>,
        (),
    >)
        requires
            old(self).wf(),
        ensures
            final(self).wf(),
            final(self)@ == old(self)@.begun(peer_id),
            r is Ok <==> old(self)@.dialing(peer_id),
            r matches Ok(callbacks) ==> match callbacks {
                Some(buffer) => old(self)@.record(peer_id) matches Some(k) && buffer@ == old(
                    self,
                )@.restored[k].callbacks && buffer.wf(),
                None => old(self)@.record(peer_id) is None,
            },
    {
        proof {
            self@.law_begin_keeps_wf(peer_id);
        }
        let i = match self.entry_position(peer_id) {
            Some(i) => i,
            None => {
                return Err(());
            },
        };
        if self.peripherals[i].state != CentralPeripheralState::Dialing {
            return Err(());
        }
        let found = self.record_position(peer_id);
        let pending = self.peripherals[i].pending_sighting;
        self.set_entry_state(i, CentralPeripheralState::Active, pending);
        match found {
            Some(k) => match self.restored.remove(k) {
                Some(peer) => {
                    proof {
                        assert(self@.restored =~= old(self)@.restored.remove(k as int));
                        assert(old(self).restored@[k as int] == peer);
                    }
                    Ok(Some(peer.callbacks))
                },
                None => Err(()),
            },
            None => Ok(None),
        }
    }

    /// Marks the entry of the peer active.
    pub fn mark_active(&mut self, peer_id: CoreBluetoothPeerId)
        requires
            old(self).wf(),
        ensures
            final(self).wf(),
            final(self)@ == old(self)@.activated(peer_id),
    {
        proof {
            self@.law_activation_keeps_wf(peer_id);
        }
        if let Some(i) = self.entry_position(peer_id) {
            let pending = self.peripherals[i].pending_sighting;
            self.set_entry_state(i, CentralPeripheralState::Active, pending);
        }
    }

    /// Removes everything that is held of the peer and returns its handle.
    pub fn remove_peer(&mut self, peer_id: CoreBluetoothPeerId) -> (r: Option<P>)
        requires
            old(self).wf(),
        ensures
            final(self).wf(),
            final(self)@ == old(self)@.removed(peer_id),
            r == old(self)@.handle(peer_id),
    {
        proof {
            self@.law_removal(peer_id);
        }
        let found = self.entry_position(peer_id);
        let record = self.record_position(peer_id);
        let peripheral = match found {
            Some(i) => match self.peripherals.remove(i) {
                Some(entry) => Some(entry.peripheral),
                None => None,
            },
            None => None,
        };
        if let Some(k) = record {
            self.restored.remove(k);
            assert(self@.restored =~= old(self)@.restored.remove(k as int));
        }
        peripheral
    }

    /// Removes all registry state and returns only the peripherals for which the registry owns a
    /// restored, dialing, or active connection. Advisory observations are dropped without
    /// cancellation because no connection was started for them.
    pub fn drain_owned(&mut self) -> (r: Vec<P>)
        requires
            old(self).wf(),
        ensures
            final(self).wf(),
            final(self)@ == old(self)@.drained(),
            r@ == old(self)@.owned(),
    {
        self.restored.clear();
        let ghost entries = self.peripherals@;
        let ghost keep = registry_model::is_owned::<P>();
        let mut owned: Vec<P> = Vec::new();
        let ghost mut done: int = 0;
        while self.peripherals.len() > 0
            invariant
                0 <= done <= entries.len(),
                self.peripherals@ == entries.skip(done),
                owned@ == entries.take(done).filter(keep).map_values(registry_model::handle_of()),
                keep == registry_model::is_owned::<P>(),
                self.restored@.len() == 0,
                self.peripheral_capacity == old(self).peripheral_capacity,
                self.restored_capacity == old(self).restored_capacity,
                self.callback_budget == old(self).callback_budget,
            decreases self.peripherals@.len(),
        {
            if let Some(entry) = self.peripherals.pop_front() {
                proof {
                    reveal(Seq::filter);
                    assert(entries.take(done + 1).drop_last() =~= entries.take(done));
                    assert(entries.take(done + 1).last() == entry);
                    assert(self.peripherals@ =~= entries.skip(done + 1));
                }
                if entry.state != CentralPeripheralState::Observed {
                    owned.push(entry.peripheral);
                    proof {
                        assert(owned@ =~= entries.take(done + 1).filter(keep).map_values(
                            registry_model::handle_of(),
                        ));
                    }
                }
                proof {
                    done = done + 1;
                }
            }
        }
        proof {
            assert(entries.take(done) =~= entries);
            assert(self@.restored =~= Seq::<RestoredPeerModel<C>>::empty());
            assert(self@.peripherals =~= Seq::<CentralPeripheral<P>>::empty());
        }
        owned
    }

    /// Hands out the sighting that has waited longest, and says whether another waits.
    pub fn pop_sighting(&mut self) -> (r: (Option<Sighting>, bool))
        requires
            old(self).wf(),
        ensures
            final(self).wf(),
            final(self)@ == old(self)@.sighted(),
            r.0 == match search::first_where(
                old(self)@.peripherals,
                registry_model::is_pending(),
            ) {
                Some(i) => Some(
                    Sighting {
                        address: old(self)@.peripherals[i].address,
                        rssi: old(self)@.peripherals[i].rssi,
                    },
                ),
                None => None,
            },
            r.1 == exists|i: int|
                0 <= i < final(self)@.peripherals.len() && (
                #[trigger] final(self)@.peripherals[i]).pending_sighting,
    {
        proof {
            self@.law_sighting_keeps_wf();
        }
        let sighting = match self.pending_position() {
            Some(i) => {
                let state = self.peripherals[i].state;
                let sighting = Sighting {
                    address: self.peripherals[i].address,
                    rssi: self.peripherals[i].rssi,
                };
                self.set_entry_state(i, state, false);
                Some(sighting)
            },
            None => None,
        };
        let more = self.pending_position();
        proof {
            match more {
                Some(i) => {
                    assert(self@.peripherals[i as int].pending_sighting);
                },
                None => {
                    assert forall|i: int| 0 <= i < self@.peripherals.len() implies !(
                    #[trigger] self@.peripherals[i]).pending_sighting by {
                        assert(!(registry_model::is_pending::<P>())(self.peripherals@[i]));
                    }
                },
            }
        }
        (sighting, more.is_some())
    }

    fn pending_position(&self) -> (r: Option<usize>)
        ensures
            match r {
                Some(i) => search::first_where(self.peripherals@, registry_model::is_pending())
                    == Some(i as int) && search::is_first(
                    self.peripherals@,
                    registry_model::is_pending(),
                    i as int,
                ),
                None => search::first_where(
                    self.peripherals@,
                    registry_model::is_pending(),
                ) is None && forall|j: int|
                    0 <= j < self.peripherals@.len() ==> !(registry_model::is_pending::<P>())(
                        #[trigger] self.peripherals@[j],
                    ),
            },
    {
        let test = |entry: &CentralPeripheral<P>| -> (b: bool)
            ensures
                b == entry.pending_sighting,
            { entry.pending_sighting };
        position(&self.peripherals, test, Ghost(registry_model::is_pending::<P>()))
    }

    /// Buffers a data fragment for a restored peer whose session is not admitted yet, or hands the
    /// fragment back where the peer is not restored.
    pub fn buffer_restored_data(&mut self, peer_id: CoreBluetoothPeerId, data: Vec<u8>) -> (r:
        RestoredBufferResult<Vec<u8>>)
        requires
            old(self).wf(),
        ensures
            final(self).wf(),
            match old(self)@.record(peer_id) {
                Some(k) => {
                    let callbacks = old(self)@.restored[k].callbacks;
                    &&& final(self)@ == old(self)@.with_callbacks(k, callbacks.offer_data(data@))
                    &&& r == if callbacks.data_fits(data@) {
                        RestoredBufferResult::<Vec<u8>>::Buffered
                    } else if callbacks.failed {
                        RestoredBufferResult::<Vec<u8>>::AlreadyFailed
                    } else {
                        RestoredBufferResult::<Vec<u8>>::Overflowed
                    }
                },
                None => final(self)@ == old(self)@ && r == RestoredBufferResult::NotRestored(data),
            },
    {
        let k = match self.record_position(peer_id) {
            Some(k) => k,
            None => {
                return RestoredBufferResult::NotRestored(data);
            },
        };
        let ghost bytes = data@;
        match self.restored.remove(k) {
            Some(peer) => {
                let mut peer = peer;
                let was_failed = peer.callbacks.failed();
                let buffered = peer.callbacks.buffer_data(data);
                self.restored.insert(k, peer);
                proof {
                    peer.callbacks.lemma_wf();
                    search::lemma_replace(old(self).restored@, k as int, peer);
                    let callbacks = old(self)@.restored[k as int].callbacks;
                    old(self)@.law_callbacks_keep_wf(k as int, callbacks.offer_data(bytes));
                    assert(self@.restored =~= old(self)@.with_callbacks(
                        k as int,
                        callbacks.offer_data(bytes),
                    ).restored);
                }
                if buffered {
                    RestoredBufferResult::Buffered
                } else if was_failed {
                    RestoredBufferResult::AlreadyFailed
                } else {
                    RestoredBufferResult::Overflowed
                }
            },
            None => RestoredBufferResult::NotRestored(data),
        }
    }

    /// Buffers a control message for a restored peer whose session is not admitted yet, or hands
    /// the message back where the peer is not restored.
    pub fn buffer_restored_control(&mut self, peer_id: CoreBluetoothPeerId, control: C) -> (r:
        RestoredBufferResult<C>)
        requires
            old(self).wf(),
        ensures
            final(self).wf(),
            match old(self)@.record(peer_id) {
                Some(k) => {
                    let callbacks = old(self)@.restored[k].callbacks;
                    &&& final(self)@ == old(self)@.with_callbacks(
                        k,
                        callbacks.offer_control(control),
                    )
                    &&& r == if callbacks.control_fits() {
                        RestoredBufferResult::<C>::Buffered
                    } else if callbacks.failed {
                        RestoredBufferResult::<C>::AlreadyFailed
                    } else {
                        RestoredBufferResult::<C>::Overflowed
                    }
                },
                None => final(self)@ == old(self)@ && r == RestoredBufferResult::NotRestored(
                    control,
                ),
            },
    {
        let k = match self.record_position(peer_id) {
            Some(k) => k,
            None => {
                return RestoredBufferResult::NotRestored(control);
            },
        };
        match self.restored.remove(k) {
            Some(peer) => {
                let mut peer = peer;
                let was_failed = peer.callbacks.failed();
                let buffered = peer.callbacks.buffer_control(control);
                self.restored.insert(k, peer);
                proof {
                    peer.callbacks.lemma_wf();
                    search::lemma_replace(old(self).restored@, k as int, peer);
                    let callbacks = old(self)@.restored[k as int].callbacks;
                    old(self)@.law_callbacks_keep_wf(k as int, callbacks.offer_control(control));
                    assert(self@.restored =~= old(self)@.with_callbacks(
                        k as int,
                        callbacks.offer_control(control),
                    ).restored);
                }
                if buffered {
                    RestoredBufferResult::Buffered
                } else if was_failed {
                    RestoredBufferResult::AlreadyFailed
                } else {
                    RestoredBufferResult::Overflowed
                }
            },
            None => RestoredBufferResult::NotRestored(control),
        }
    }

    /// The number of registered peripherals.
    pub fn peripheral_len(&self) -> (r: usize)
        ensures
            r == self@.peripherals.len(),
    {
        self.peripherals.len()
    }

    /// The number of restored peers whose sessions have not begun.
    pub fn restored_len(&self) -> (r: usize)
        ensures
            r == self@.restored.len(),
    {
        self.restored.len()
    }
}

} // verus!
