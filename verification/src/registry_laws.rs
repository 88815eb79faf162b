//! What holds of the central-role peer registry across its operations.

use crate::peer::{BleAddress, CoreBluetoothPeerId};
use crate::registry_model;
use crate::registry_model::{
    CentralPeripheral, CentralPeripheralState, RegistryModel, RestoredAdmission, RestoredPeerModel,
    RestoredPhase,
};
use crate::search;
use vstd::prelude::*;

verus! {

/// Some entry is that of the peer, in the state.
pub open spec fn stands_in_state<P>(
    entries: Seq<CentralPeripheral<P>>,
    peer_id: CoreBluetoothPeerId,
    state: CentralPeripheralState,
) -> bool {
    exists|j: int|
        0 <= j < entries.len() && (#[trigger] entries[j]).peer_id == peer_id && entries[j].state
            == state
}

impl<P, C> RegistryModel<P, C> {
    proof fn lemma_make_way_keeps_owned(self, address: BleAddress, k: int)
        requires
            0 <= k < self.peripherals.len(),
            self.peripherals[k].state != CentralPeripheralState::Observed,
        ensures
            self.make_way(address) matches Some(rest) ==> rest.contains(self.peripherals[k]),
    {
        search::lemma_first_where(self.peripherals, registry_model::at_address(address));
        search::lemma_first_where(self.peripherals, registry_model::is_observed());
        if let Some(rest) = self.make_way(address) {
            let given = match self.slot(address) {
                Some(i) => Some(i),
                None => if self.peripherals.len() < self.peripheral_capacity {
                    None
                } else {
                    search::first_where(self.peripherals, registry_model::is_observed())
                },
            };
            match given {
                Some(i) => {
                    if self.slot(address) is None {
                        assert((registry_model::is_observed::<P>())(self.peripherals[i]));
                    }
                    assert(self.peripherals[i].state == CentralPeripheralState::Observed);
                    if k < i {
                        assert(rest[k] == self.peripherals[k]);
                    } else {
                        assert(rest[k - 1] == self.peripherals[k]);
                    }
                },
                None => {
                    assert(rest[k] == self.peripherals[k]);
                },
            }
        }
    }

    /// A restored, dialing or active peripheral is never evicted: it stays as it is whatever is
    /// observed and whatever else is restored, and it keeps its state where it is restored again.
    pub proof fn law_owned_is_never_evicted(
        self,
        peer_id: CoreBluetoothPeerId,
        peripheral: P,
        rssi: Option<i8>,
        k: int,
    )
        requires
            self.wf(),
            0 <= k < self.peripherals.len(),
            self.peripherals[k].state != CentralPeripheralState::Observed,
        ensures
            self.observe(peer_id, peripheral, rssi).peripherals.contains(self.peripherals[k]),
            self.peripherals[k].peer_id != peer_id ==> self.admitted(
                peer_id,
                peripheral,
            ).peripherals.contains(self.peripherals[k]),
            stands_in_state(
                self.admitted(peer_id, peripheral).peripherals,
                self.peripherals[k].peer_id,
                self.peripherals[k].state,
            ),
    {
        let owned = self.peripherals[k];
        let address = peer_id.spec_address();
        self.lemma_make_way_keeps_owned(address, k);
        match self.make_way(address) {
            Some(rest) => {
                let at = rest.index_of(owned);
                let observed = self.observe(peer_id, peripheral, rssi).peripherals;
                assert(observed[at] == owned);
                if self.admission(peer_id) == RestoredAdmission::Admitted {
                    let entries = self.admitted(peer_id, peripheral).peripherals;
                    assert(entries[at] == owned);
                }
            },
            None => {},
        }
        if self.admission(peer_id) != RestoredAdmission::Admitted {
            let entries = self.admitted(peer_id, peripheral).peripherals;
            if self.admission(peer_id) == RestoredAdmission::Updated {
                let r = self.record(peer_id)->0;
                search::lemma_first_where(self.restored, registry_model::restored_is(peer_id));
                assert((registry_model::restored_is::<C>(peer_id))(self.restored[r]));
                self.lemma_owner_has_entry(r);
                assert(entries[k].peer_id == owned.peer_id && entries[k].state == owned.state);
            } else {
                assert(entries[k] == owned);
            }
        }
    }

    /// Collisions of a synthetic address are deterministic: an advisory observation gives way to a
    /// newcomer, and an owner turns it away.
    pub proof fn law_collision(
        self,
        peer_id: CoreBluetoothPeerId,
        peripheral: P,
        rssi: Option<i8>,
        i: int,
    )
        requires
            self.wf(),
            self.slot(peer_id.spec_address()) == Some(i),
        ensures
            self.peripherals[i].state != CentralPeripheralState::Observed ==> {
                &&& self.observe(peer_id, peripheral, rssi) == self
                &&& self.admission(peer_id) != RestoredAdmission::Admitted
            },
            self.peripherals[i].state == CentralPeripheralState::Observed ==> {
                let next = self.observe(peer_id, peripheral, rssi);
                &&& next.peripherals.len() == self.peripherals.len()
                &&& next.handle(peer_id) == Some(peripheral)
                &&& next.slot(peer_id.spec_address()) == Some(next.peripherals.len() - 1)
            },
    {
        search::lemma_first_where(
            self.peripherals,
            registry_model::at_address(peer_id.spec_address()),
        );
        if self.peripherals[i].state == CentralPeripheralState::Observed {
            self.lemma_observed_is_last(peer_id, peripheral, rssi);
        }
    }

    /// A peer that was observed stands last, under its handle.
    pub proof fn lemma_observed_is_last(
        self,
        peer_id: CoreBluetoothPeerId,
        peripheral: P,
        rssi: Option<i8>,
    )
        requires
            self.wf(),
            self.make_way(peer_id.spec_address()) is Some,
        ensures
            ({
                let next = self.observe(peer_id, peripheral, rssi);
                &&& next.entry(peer_id) == Some(next.peripherals.len() - 1)
                &&& next.slot(peer_id.spec_address()) == Some(next.peripherals.len() - 1)
                &&& next.handle(peer_id) == Some(peripheral)
            }),
    {
        let address = peer_id.spec_address();
        let next = self.observe(peer_id, peripheral, rssi);
        self.law_observe_keeps_wf(peer_id, peripheral, rssi);
        let last = next.peripherals.len() - 1;
        let p = registry_model::peer_is::<P>(peer_id);
        let q = registry_model::at_address::<P>(address);
        assert(next.peripherals[last].peer_id == peer_id);
        assert forall|j: int| 0 <= j < last implies !p(#[trigger] next.peripherals[j]) by {
            assert(next.peripherals[j].address != next.peripherals[last].address);
        }
        assert forall|j: int| 0 <= j < last implies !q(#[trigger] next.peripherals[j]) by {
            assert(next.peripherals[j].address != next.peripherals[last].address);
        }
        search::lemma_first_where_is(next.peripherals, p, last);
        search::lemma_first_where_is(next.peripherals, q, last);
    }

    /// A restored peer keeps its place in the restored capacity while it is offered and claimed and
    /// whatever is observed; the beginning of its session gives the place back.
    pub proof fn law_restored_capacity_is_held(
        self,
        address: BleAddress,
        peer_id: CoreBluetoothPeerId,
        peripheral: P,
        rssi: Option<i8>,
    )
        requires
            self.wf(),
        ensures
            self.offered().restored.len() == self.restored.len(),
            self.claimed(address).restored.len() == self.restored.len(),
            self.observe(peer_id, peripheral, rssi).restored == self.restored,
            self.activated(peer_id).restored == self.restored,
            self.dialing(peer_id) && self.record(peer_id) is Some ==> self.begun(
                peer_id,
            ).restored.len() == self.restored.len() - 1,
            self.record(peer_id) is Some ==> self.removed(peer_id).restored.len()
                == self.restored.len() - 1,
            self.drained().restored.len() == 0,
    {
        search::lemma_first_where(self.restored, registry_model::is_queued());
        search::lemma_first_where(self.restored, registry_model::restored_is(peer_id));
        match self.slot(address) {
            Some(i) => {
                search::lemma_first_where(
                    self.restored,
                    registry_model::restored_is(self.peripherals[i].peer_id),
                );
            },
            None => {},
        }
    }

    /// A peripheral is claimed by one dial at a time: once claimed, its address is busy, and its
    /// session may begin.
    pub proof fn law_claim_is_exclusive(self, address: BleAddress)
        requires
            self.wf(),
            self.claimable(address),
        ensures
            self.claimed(address).slot(address) == self.slot(address),
            !self.claimed(address).claimable(address),
            self.claimed(address).dialing(self.peripherals[self.slot(address)->0].peer_id),
    {
        let q = registry_model::at_address::<P>(address);
        search::lemma_first_where(self.peripherals, q);
        let i = self.slot(address)->0;
        let peer_id = self.peripherals[i].peer_id;
        let p = registry_model::peer_is::<P>(peer_id);
        let next = self.claimed(address);
        assert(q(self.peripherals[i]));
        assert forall|j: int| 0 <= j < next.peripherals.len() && j != i implies (
        #[trigger] next.peripherals[j]) == self.peripherals[j] by {}
        assert(q(next.peripherals[i]));
        assert forall|j: int| 0 <= j < i implies !q(#[trigger] next.peripherals[j]) by {
            assert(!q(self.peripherals[j]));
        }
        search::lemma_first_where_is(next.peripherals, q, i);
        assert(p(next.peripherals[i]));
        assert forall|j: int| 0 <= j < i implies !p(#[trigger] next.peripherals[j]) by {
            assert(self.peripherals[j].address != self.peripherals[i].address);
        }
        search::lemma_first_where_is(next.peripherals, p, i);
    }

    /// A claimed peer's session begins once, and the callbacks of a restored one are handed over
    /// with it: nothing is buffered for the peer any more.
    pub proof fn law_session_begins_once(self, peer_id: CoreBluetoothPeerId)
        requires
            self.wf(),
            self.dialing(peer_id),
        ensures
            !self.begun(peer_id).dialing(peer_id),
            self.begun(peer_id).record(peer_id) is None,
            self.begun(peer_id).handle(peer_id) == self.handle(peer_id),
            self.record(peer_id) matches Some(r) ==> self.restored[r].phase
                == RestoredPhase::Claimed,
    {
        let p = registry_model::peer_is::<P>(peer_id);
        let q = registry_model::restored_is::<C>(peer_id);
        search::lemma_first_where(self.peripherals, p);
        search::lemma_first_where(self.restored, q);
        let next = self.begun(peer_id);
        let i = self.entry(peer_id)->0;
        assert(p(self.peripherals[i]));
        assert(p(next.peripherals[i]));
        assert forall|j: int| 0 <= j < i implies !p(#[trigger] next.peripherals[j]) by {
            assert(!p(self.peripherals[j]));
        }
        search::lemma_first_where_is(next.peripherals, p, i);
        match self.record(peer_id) {
            Some(r) => {
                assert(q(self.restored[r]));
                self.lemma_owner_has_entry(r);
                search::lemma_first_where(next.restored, q);
                match next.record(peer_id) {
                    Some(k) => {
                        assert(q(next.restored[k]));
                        let k0 = if k < r {
                            k
                        } else {
                            k + 1
                        };
                        assert(next.restored[k] == self.restored[k0]);
                        if k0 < r {
                            assert(self.restored[k0].peer_id != self.restored[r].peer_id);
                        } else {
                            assert(self.restored[r].peer_id != self.restored[k0].peer_id);
                        }
                    },
                    None => {},
                }
            },
            None => {},
        }
    }

    /// What was drained or removed is not found again, so nobody cancels its connection twice.
    pub proof fn law_nothing_is_cancelled_twice(self, peer_id: CoreBluetoothPeerId)
        requires
            self.wf(),
        ensures
            self.drained().wf(),
            self.drained().owned().len() == 0,
            self.drained().handle(peer_id) is None,
            self.removed(peer_id).handle(peer_id) is None,
    {
        self.law_removal(peer_id);
        search::lemma_first_where(
            self.drained().peripherals,
            registry_model::peer_is::<P>(peer_id),
        );
        reveal(Seq::filter);
    }

    /// A sighting is handed out once: it waits no longer, and every other one waits as before.
    pub proof fn law_sighting_is_handed_out_once(self, i: int)
        requires
            self.wf(),
            search::first_where(self.peripherals, registry_model::is_pending()) == Some(i),
        ensures
            self.peripherals[i].pending_sighting,
            !self.sighted().peripherals[i].pending_sighting,
            forall|j: int|
                0 <= j < self.peripherals.len() && j != i ==> #[trigger] self.sighted().peripherals[j]
                    == self.peripherals[j],
    {
        search::lemma_first_where(self.peripherals, registry_model::is_pending());
        assert((registry_model::is_pending::<P>())(self.peripherals[i]));
    }
}

impl<P, C> RegistryModel<P, C> {
    /// The entry at the index is the one that is found for its peer and at its address.
    pub proof fn lemma_entry_is(self, i: int)
        requires
            self.wf(),
            0 <= i < self.peripherals.len(),
        ensures
            self.entry(self.peripherals[i].peer_id) == Some(i),
            self.slot(self.peripherals[i].address) == Some(i),
    {
        let p = registry_model::peer_is::<P>(self.peripherals[i].peer_id);
        let q = registry_model::at_address::<P>(self.peripherals[i].address);
        assert forall|j: int| 0 <= j < i implies !p(#[trigger] self.peripherals[j]) by {
            assert(self.peripherals[j].address != self.peripherals[i].address);
        }
        assert forall|j: int| 0 <= j < i implies !q(#[trigger] self.peripherals[j]) by {}
        search::lemma_first_where_is(self.peripherals, p, i);
        search::lemma_first_where_is(self.peripherals, q, i);
    }

    /// The restored peer at the index is the one that is found for its peer.
    pub proof fn lemma_record_is(self, k: int)
        requires
            self.wf(),
            0 <= k < self.restored.len(),
        ensures
            self.record(self.restored[k].peer_id) == Some(k),
    {
        let q = registry_model::restored_is::<C>(self.restored[k].peer_id);
        assert forall|j: int| 0 <= j < k implies !q(#[trigger] self.restored[j]) by {
            assert(self.restored[j].peer_id != self.restored[k].peer_id);
        }
        search::lemma_first_where_is(self.restored, q, k);
    }

    /// No entry, and no restored peer, is that of a peer for which none is found.
    pub proof fn lemma_not_found(self, peer_id: CoreBluetoothPeerId)
        ensures
            self.entry(peer_id) is None <==> forall|i: int|
                0 <= i < self.peripherals.len() ==> (#[trigger] self.peripherals[i]).peer_id
                    != peer_id,
            self.record(peer_id) is None <==> forall|k: int|
                0 <= k < self.restored.len() ==> (#[trigger] self.restored[k]).peer_id != peer_id,
            self.entry(peer_id) matches Some(i) ==> 0 <= i < self.peripherals.len()
                && self.peripherals[i].peer_id == peer_id,
            self.record(peer_id) matches Some(k) ==> 0 <= k < self.restored.len()
                && self.restored[k].peer_id == peer_id,
    {
        let p = registry_model::peer_is::<P>(peer_id);
        let q = registry_model::restored_is::<C>(peer_id);
        search::lemma_first_where(self.peripherals, p);
        search::lemma_first_where(self.restored, q);
        if self.entry(peer_id) is None {
            assert forall|i: int| 0 <= i < self.peripherals.len() implies (
            #[trigger] self.peripherals[i]).peer_id != peer_id by {
                assert(!p(self.peripherals[i]));
            }
        }
        if self.record(peer_id) is None {
            assert forall|k: int| 0 <= k < self.restored.len() implies (
            #[trigger] self.restored[k]).peer_id != peer_id by {
                assert(!q(self.restored[k]));
            }
        }
        if let Some(i) = self.entry(peer_id) {
            assert(p(self.peripherals[i]));
        }
        if let Some(k) = self.record(peer_id) {
            assert(q(self.restored[k]));
        }
    }

    /// The entry at the index stands at the address.
    pub open spec fn stands_at(self, i: int, address: BleAddress) -> bool {
        0 <= i < self.peripherals.len() && self.peripherals[i].address == address
    }

    /// The entry at the index is owned: it is restored, dialing or active.
    pub open spec fn owns(self, i: int) -> bool {
        0 <= i < self.peripherals.len() && self.peripherals[i].state
            != CentralPeripheralState::Observed
    }

    /// The entry that stands at the address, where one does, is the one that is found there, and the
    /// oldest entry that nobody owns, where there is one, is the one that is found first.
    pub proof fn lemma_found(self, address: BleAddress)
        requires
            self.wf(),
        ensures
            match self.slot(address) {
                Some(i) => self.stands_at(i, address) && forall|j: int| #[trigger]
                    self.stands_at(j, address) ==> j == i,
                None => forall|j: int| !#[trigger] self.stands_at(j, address),
            },
            match search::first_where(self.peripherals, registry_model::is_observed()) {
                Some(i) => 0 <= i < self.peripherals.len() && !self.owns(i) && forall|j: int|
                    0 <= j < i ==> #[trigger] self.owns(j),
                None => forall|j: int| 0 <= j < self.peripherals.len() ==> #[trigger] self.owns(j),
            },
    {
        let q = registry_model::at_address::<P>(address);
        let o = registry_model::is_observed::<P>();
        search::lemma_first_where(self.peripherals, q);
        search::lemma_first_where(self.peripherals, o);
        match self.slot(address) {
            Some(i) => {
                assert(q(self.peripherals[i]));
                assert forall|j: int| #[trigger] self.stands_at(j, address) implies j == i by {
                    self.lemma_entry_is(j);
                }
            },
            None => {
                assert forall|j: int| !#[trigger] self.stands_at(j, address) by {
                    if 0 <= j < self.peripherals.len() {
                        assert(!q(self.peripherals[j]));
                    }
                }
            },
        }
        match search::first_where(self.peripherals, o) {
            Some(i) => {
                assert(o(self.peripherals[i]));
                assert forall|j: int| 0 <= j < i implies #[trigger] self.owns(j) by {
                    assert(!o(self.peripherals[j]));
                }
            },
            None => {
                assert forall|j: int| 0 <= j < self.peripherals.len() implies #[trigger] self.owns(
                    j,
                ) by {
                    assert(!o(self.peripherals[j]));
                }
            },
        }
    }

    /// A newcomer is turned away exactly where its address is owned, or where its address is free
    /// and every place is owned.
    pub proof fn law_room_is_owed(self, address: BleAddress)
        requires
            self.wf(),
        ensures
            self.make_way(address) is None <==> {
                ||| exists|i: int| #[trigger] self.stands_at(i, address) && self.owns(i)
                ||| {
                    &&& self.peripherals.len() >= self.peripheral_capacity
                    &&& forall|i: int| !#[trigger] self.stands_at(i, address)
                    &&& forall|i: int|
                        0 <= i < self.peripherals.len() ==> #[trigger] self.owns(i)
                }
            },
    {
        self.lemma_found(address);
    }

    /// Room for a newcomer costs one advisory observation at most: the one at the newcomer's own
    /// address, or, with the address free and no place left, the oldest of all.
    pub proof fn law_room_costs_one_observation(self, address: BleAddress)
        requires
            self.wf(),
            self.make_way(address) is Some,
        ensures
            ({
                let rest = self.make_way(address)->0;
                if exists|i: int| #[trigger] self.stands_at(i, address) {
                    exists|i: int| #[trigger]
                        self.stands_at(i, address) && !self.owns(i) && rest
                            == self.peripherals.remove(i)
                } else if self.peripherals.len() < self.peripheral_capacity {
                    rest == self.peripherals
                } else {
                    exists|i: int|
                        {
                            &&& 0 <= i < self.peripherals.len()
                            &&& !#[trigger] self.owns(i)
                            &&& forall|j: int| 0 <= j < i ==> #[trigger] self.owns(j)
                            &&& rest == self.peripherals.remove(i)
                        }
                }
            }),
    {
        self.lemma_found(address);
    }

    /// Every observation that is registered waits to be reported, with the handle and the signal of
    /// that observation, whatever was reported of the peer before. One that is not registered
    /// changes nothing.
    pub proof fn law_observation_waits(
        self,
        peer_id: CoreBluetoothPeerId,
        peripheral: P,
        rssi: Option<i8>,
    )
        requires
            self.wf(),
        ensures
            ({
                let next = self.observe(peer_id, peripheral, rssi);
                if self.make_way(peer_id.spec_address()) is Some {
                    &&& exists|i: int|
                        0 <= i < next.peripherals.len() && (
                        #[trigger] next.peripherals[i]).peer_id == peer_id
                    &&& forall|i: int|
                        0 <= i < next.peripherals.len() && (
                        #[trigger] next.peripherals[i]).peer_id == peer_id ==> {
                            &&& next.peripherals[i].pending_sighting
                            &&& next.peripherals[i].rssi == rssi
                            &&& next.peripherals[i].peripheral == peripheral
                            &&& next.peripherals[i].address == peer_id.spec_address()
                            &&& next.peripherals[i].state == CentralPeripheralState::Observed
                        }
                    &&& forall|i: int|
                        0 <= i < next.peripherals.len() && (
                        #[trigger] next.peripherals[i]).peer_id != peer_id
                            ==> self.peripherals.contains(next.peripherals[i])
                    &&& next.restored == self.restored
                } else {
                    next == self
                }
            }),
    {
        if self.make_way(peer_id.spec_address()) is Some {
            let next = self.observe(peer_id, peripheral, rssi);
            self.law_observe_keeps_wf(peer_id, peripheral, rssi);
            self.law_room_costs_one_observation(peer_id.spec_address());
            self.lemma_found(peer_id.spec_address());
            let last = next.peripherals.len() - 1;
            let rest = self.make_way(peer_id.spec_address())->0;
            assert(next.peripherals[last].peer_id == peer_id);
            assert forall|i: int|
                0 <= i < next.peripherals.len() && (#[trigger] next.peripherals[i]).peer_id
                    == peer_id implies i == last by {
                if i < last {
                    assert(next.peripherals[i].address != next.peripherals[last].address);
                }
            }
            assert forall|i: int|
                0 <= i < next.peripherals.len() && (#[trigger] next.peripherals[i]).peer_id
                    != peer_id implies self.peripherals.contains(next.peripherals[i]) by {
                assert(next.peripherals[i] == rest[i]);
                if rest != self.peripherals {
                    let v = match self.slot(peer_id.spec_address()) {
                        Some(v) => v,
                        None => search::first_where(
                            self.peripherals,
                            registry_model::is_observed(),
                        )->0,
                    };
                    if i < v {
                        assert(rest[i] == self.peripherals[i]);
                    } else {
                        assert(rest[i] == self.peripherals[i + 1]);
                    }
                }
            }
        }
    }

    /// A sighting is handed out for the peer that has one waiting longest, and no sighting waits
    /// where none is handed out.
    pub proof fn law_sightings_come_in_order(self)
        ensures
            ({
                let next = self.sighted();
                &&& next.restored == self.restored
                &&& next.peripherals.len() == self.peripherals.len()
                &&& (forall|i: int|
                    0 <= i < self.peripherals.len() ==> !(
                    #[trigger] self.peripherals[i]).pending_sighting) ==> next == self
                &&& forall|i: int|
                    0 <= i < self.peripherals.len() && (
                    #[trigger] self.peripherals[i]).pending_sighting && (forall|j: int|
                        0 <= j < i ==> !(#[trigger] self.peripherals[j]).pending_sighting) ==> {
                        &&& search::first_where(self.peripherals, registry_model::is_pending())
                            == Some(i)
                        &&& next.peripherals[i] == (CentralPeripheral {
                            pending_sighting: false,
                            ..self.peripherals[i]
                        })
                    }
            }),
    {
        let p = registry_model::is_pending::<P>();
        search::lemma_first_where(self.peripherals, p);
        if let Some(i) = search::first_where(self.peripherals, p) {
            assert(p(self.peripherals[i]));
        }
        assert forall|i: int|
            0 <= i < self.peripherals.len() && (#[trigger] self.peripherals[i]).pending_sighting
                && (forall|j: int|
                0 <= j < i ==> !(#[trigger] self.peripherals[j]).pending_sighting) implies
            search::first_where(self.peripherals, p) == Some(i) by {
            assert forall|j: int| 0 <= j < i implies !p(#[trigger] self.peripherals[j]) by {}
            search::lemma_first_where_is(self.peripherals, p, i);
        }
    }

    /// A restored peer that is admitted is owned under its new handle, waits to be offered, and has
    /// nothing buffered. One that still waits gets the newer handle and keeps what was buffered.
    /// Every other answer changes nothing.
    pub proof fn law_admission_answers(self, peer_id: CoreBluetoothPeerId, peripheral: P)
        requires
            self.wf(),
        ensures
            ({
                let next = self.admitted(peer_id, peripheral);
                match self.admission(peer_id) {
                    RestoredAdmission::Admitted => {
                        &&& forall|k: int|
                            0 <= k < self.restored.len() ==> (#[trigger] self.restored[k]).peer_id
                                != peer_id
                        &&& self.restored.len() < self.restored_capacity
                        &&& next.restored.len() == self.restored.len() + 1
                        &&& next.restored.drop_last() == self.restored
                        &&& next.restored.last().peer_id == peer_id
                        &&& next.restored.last().phase == RestoredPhase::Queued
                        &&& next.restored.last().callbacks.controls.len() == 0
                        &&& next.restored.last().callbacks.data.len() == 0
                        &&& !next.restored.last().callbacks.failed
                        &&& next.restored.last().callbacks.budget == self.callback_budget
                        &&& next.peripherals.last().peer_id == peer_id
                        &&& next.peripherals.last().peripheral == peripheral
                        &&& next.peripherals.last().state == CentralPeripheralState::Restored
                        &&& next.peripherals.last().rssi is None
                        &&& !next.peripherals.last().pending_sighting
                    },
                    RestoredAdmission::Updated => {
                        &&& exists|k: int|
                            0 <= k < self.restored.len() && (
                            #[trigger] self.restored[k]).peer_id == peer_id
                                && self.restored[k].phase == RestoredPhase::Queued
                        &&& next.restored == self.restored
                        &&& next.peripherals.len() == self.peripherals.len()
                        &&& forall|i: int|
                            0 <= i < self.peripherals.len() ==> #[trigger] next.peripherals[i]
                                == if self.peripherals[i].peer_id == peer_id {
                                CentralPeripheral { peripheral, rssi: None, ..self.peripherals[i] }
                            } else {
                                self.peripherals[i]
                            }
                    },
                    RestoredAdmission::AlreadyOwned => {
                        &&& next == self
                        &&& exists|i: int|
                            0 <= i < self.peripherals.len() && (
                            #[trigger] self.peripherals[i]).peer_id == peer_id
                                && self.peripherals[i].state != CentralPeripheralState::Observed
                    },
                    RestoredAdmission::Full => {
                        &&& next == self
                        &&& self.restored.len() >= self.restored_capacity || self.make_way(
                            peer_id.spec_address(),
                        ) is None
                        &&& forall|k: int|
                            0 <= k < self.restored.len() ==> (#[trigger] self.restored[k]).peer_id
                                != peer_id
                    },
                }
            }),
    {
        self.lemma_not_found(peer_id);
        let next = self.admitted(peer_id, peripheral);
        match self.admission(peer_id) {
            RestoredAdmission::Admitted => {
                assert(next.restored.drop_last() =~= self.restored);
            },
            RestoredAdmission::Updated => {
                let k = self.record(peer_id)->0;
                self.lemma_owner_has_entry(k);
                let e = self.entry(peer_id)->0;
                assert forall|i: int| 0 <= i < self.peripherals.len() implies #[trigger] next.peripherals[i]
                    == if self.peripherals[i].peer_id == peer_id {
                    CentralPeripheral { peripheral, rssi: None, ..self.peripherals[i] }
                } else {
                    self.peripherals[i]
                } by {
                    if self.peripherals[i].peer_id == peer_id {
                        self.lemma_entry_is(i);
                    }
                }
            },
            RestoredAdmission::AlreadyOwned => {
                if let Some(k) = self.record(peer_id) {
                    self.lemma_owner_has_entry(k);
                    let e = self.entry(peer_id)->0;
                    assert(self.peripherals[e].state != CentralPeripheralState::Observed);
                }
            },
            RestoredAdmission::Full => {},
        }
    }

    /// Restored peers are offered one at a time, the one admitted longest ago first, and none twice.
    /// Nothing else changes by that, and what is buffered stays.
    pub proof fn law_offers_come_in_order(self)
        ensures
            ({
                let next = self.offered();
                &&& next.peripherals == self.peripherals
                &&& next.restored.len() == self.restored.len()
                &&& forall|k: int|
                    0 <= k < self.restored.len() ==> {
                        &&& (#[trigger] next.restored[k]).peer_id == self.restored[k].peer_id
                        &&& next.restored[k].callbacks == self.restored[k].callbacks
                        &&& next.restored[k].phase == if self.restored[k].phase
                            == RestoredPhase::Queued && forall|j: int|
                            0 <= j < k ==> (#[trigger] self.restored[j]).phase
                                != RestoredPhase::Queued {
                            RestoredPhase::Offered
                        } else {
                            self.restored[k].phase
                        }
                    }
            }),
    {
        let p = registry_model::is_queued::<C>();
        search::lemma_first_where(self.restored, p);
        match search::first_where(self.restored, p) {
            Some(r) => {
                assert(p(self.restored[r]));
                assert forall|j: int| 0 <= j < r implies (#[trigger] self.restored[j]).phase
                    != RestoredPhase::Queued by {
                    assert(!p(self.restored[j]));
                }
            },
            None => {
                assert forall|j: int| 0 <= j < self.restored.len() implies (
                #[trigger] self.restored[j]).phase != RestoredPhase::Queued by {
                    assert(!p(self.restored[j]));
                }
            },
        }
    }

    /// An address is claimed where its peripheral is only observed, or restored and offered. The
    /// claim makes it a dial, takes its sighting back, and leaves its handle, its signal and what is
    /// buffered; nobody else is touched.
    pub proof fn law_claim_takes_the_offered(self, address: BleAddress)
        requires
            self.wf(),
        ensures
            self.claimable(address) <==> exists|i: int|
                {
                    &&& 0 <= i < self.peripherals.len()
                    &&& (#[trigger] self.peripherals[i]).address == address
                    &&& self.peripherals[i].state == CentralPeripheralState::Observed || (
                    self.peripherals[i].state == CentralPeripheralState::Restored && exists|k: int|
                        0 <= k < self.restored.len() && (#[trigger] self.restored[k]).peer_id
                            == self.peripherals[i].peer_id && self.restored[k].phase
                            == RestoredPhase::Offered)
                },
            !self.claimable(address) ==> self.claimed(address) == self,
            self.claimable(address) ==> {
                let next = self.claimed(address);
                &&& next.peripherals.len() == self.peripherals.len()
                &&& forall|i: int|
                    0 <= i < self.peripherals.len() ==> #[trigger] next.peripherals[i]
                        == if self.peripherals[i].address == address {
                        CentralPeripheral {
                            state: CentralPeripheralState::Dialing,
                            pending_sighting: false,
                            ..self.peripherals[i]
                        }
                    } else {
                        self.peripherals[i]
                    }
                &&& next.restored.len() == self.restored.len()
                &&& forall|k: int|
                    0 <= k < self.restored.len() ==> {
                        &&& (#[trigger] next.restored[k]).peer_id == self.restored[k].peer_id
                        &&& next.restored[k].callbacks == self.restored[k].callbacks
                        &&& next.restored[k].phase == if self.restored[k].peer_id.spec_address()
                            == address {
                            RestoredPhase::Claimed
                        } else {
                            self.restored[k].phase
                        }
                    }
            },
    {
        let q = registry_model::at_address::<P>(address);
        search::lemma_first_where(self.peripherals, q);
        match self.slot(address) {
            Some(i) => {
                assert(q(self.peripherals[i]));
                let peer_id = self.peripherals[i].peer_id;
                self.lemma_not_found(peer_id);
                assert forall|j: int|
                    0 <= j < self.peripherals.len() && (#[trigger] self.peripherals[j]).address
                        == address implies j == i by {
                    self.lemma_entry_is(j);
                }
                assert forall|k: int|
                    0 <= k < self.restored.len() && (#[trigger] self.restored[k]).peer_id
                        == peer_id implies self.record(peer_id) == Some(k) by {
                    self.lemma_record_is(k);
                }
                assert forall|k: int|
                    0 <= k < self.restored.len() && (
                    #[trigger] self.restored[k]).peer_id.spec_address() == address implies
                    self.restored[k].peer_id == peer_id && self.peripherals[i].state
                    != CentralPeripheralState::Observed by {
                    self.lemma_owner_has_entry(k);
                    let e = self.entry(self.restored[k].peer_id)->0;
                    assert(self.peripherals[e].address == address);
                    self.lemma_entry_is(e);
                }
                if self.claimable(address) {
                    let next = self.claimed(address);
                    assert forall|k: int| 0 <= k < self.restored.len() implies {
                        &&& (#[trigger] next.restored[k]).peer_id == self.restored[k].peer_id
                        &&& next.restored[k].callbacks == self.restored[k].callbacks
                        &&& next.restored[k].phase == if self.restored[k].peer_id.spec_address()
                            == address {
                            RestoredPhase::Claimed
                        } else {
                            self.restored[k].phase
                        }
                    } by {
                        assert(self.restored[k].peer_id == self.restored[k].peer_id);
                        if self.restored[k].peer_id == peer_id {
                            assert(self.peripherals[i].address == peer_id.spec_address());
                        }
                    }
                }
            },
            None => {
                assert forall|j: int| 0 <= j < self.peripherals.len() implies (
                #[trigger] self.peripherals[j]).address != address by {
                    assert(!q(self.peripherals[j]));
                }
            },
        }
    }

    /// The session of a peer begins where the peer is being dialed. Its entry is active from then
    /// on and its restored state is gone; nobody else is touched.
    pub proof fn law_beginning_is_exact(self, peer_id: CoreBluetoothPeerId)
        requires
            self.wf(),
        ensures
            self.dialing(peer_id) <==> exists|i: int|
                0 <= i < self.peripherals.len() && (#[trigger] self.peripherals[i]).peer_id
                    == peer_id && self.peripherals[i].state == CentralPeripheralState::Dialing,
            !self.dialing(peer_id) ==> self.begun(peer_id) == self,
            self.dialing(peer_id) ==> {
                let next = self.begun(peer_id);
                &&& next.peripherals.len() == self.peripherals.len()
                &&& forall|i: int|
                    0 <= i < self.peripherals.len() ==> #[trigger] next.peripherals[i]
                        == if self.peripherals[i].peer_id == peer_id {
                        CentralPeripheral {
                            state: CentralPeripheralState::Active,
                            ..self.peripherals[i]
                        }
                    } else {
                        self.peripherals[i]
                    }
                &&& forall|k: int|
                    0 <= k < next.restored.len() ==> (#[trigger] next.restored[k]).peer_id
                        != peer_id && self.restored.contains(next.restored[k])
                &&& forall|k: int|
                    0 <= k < self.restored.len() && (#[trigger] self.restored[k]).peer_id
                        != peer_id ==> next.restored.contains(self.restored[k])
            },
    {
        self.lemma_not_found(peer_id);
        assert forall|i: int|
            0 <= i < self.peripherals.len() && (#[trigger] self.peripherals[i]).peer_id
                == peer_id implies self.entry(peer_id) == Some(i) by {
            self.lemma_entry_is(i);
        }
        if self.dialing(peer_id) {
            lemma_restored_without(self, peer_id);
        }
    }

    /// A removed peer is gone and nobody else is: every other entry and every other restored peer
    /// stays as it was.
    pub proof fn law_removal_is_exact(self, peer_id: CoreBluetoothPeerId)
        requires
            self.wf(),
        ensures
            ({
                let next = self.removed(peer_id);
                &&& forall|i: int|
                    0 <= i < next.peripherals.len() ==> (#[trigger] next.peripherals[i]).peer_id
                        != peer_id && self.peripherals.contains(next.peripherals[i])
                &&& forall|i: int|
                    0 <= i < self.peripherals.len() && (#[trigger] self.peripherals[i]).peer_id
                        != peer_id ==> next.peripherals.contains(self.peripherals[i])
                &&& forall|k: int|
                    0 <= k < next.restored.len() ==> (#[trigger] next.restored[k]).peer_id
                        != peer_id && self.restored.contains(next.restored[k])
                &&& forall|k: int|
                    0 <= k < self.restored.len() && (#[trigger] self.restored[k]).peer_id
                        != peer_id ==> next.restored.contains(self.restored[k])
            }),
            self.handle(peer_id) matches Some(handle) ==> exists|i: int|
                0 <= i < self.peripherals.len() && (#[trigger] self.peripherals[i]).peer_id
                    == peer_id && self.peripherals[i].peripheral == handle,
            self.handle(peer_id) is None ==> forall|i: int|
                0 <= i < self.peripherals.len() ==> (#[trigger] self.peripherals[i]).peer_id
                    != peer_id,
    {
        self.lemma_not_found(peer_id);
        lemma_restored_without(self, peer_id);
        let next = self.removed(peer_id);
        if let Some(e) = self.entry(peer_id) {
            assert forall|i: int| 0 <= i < next.peripherals.len() implies (
            #[trigger] next.peripherals[i]).peer_id != peer_id && self.peripherals.contains(
                next.peripherals[i],
            ) by {
                let i0 = if i < e {
                    i
                } else {
                    i + 1
                };
                assert(next.peripherals[i] == self.peripherals[i0]);
                if self.peripherals[i0].peer_id == peer_id {
                    self.lemma_entry_is(i0);
                }
            }
            assert forall|i: int|
                0 <= i < self.peripherals.len() && (#[trigger] self.peripherals[i]).peer_id
                    != peer_id implies next.peripherals.contains(self.peripherals[i]) by {
                if i < e {
                    assert(next.peripherals[i] == self.peripherals[i]);
                } else {
                    assert(next.peripherals[i - 1] == self.peripherals[i]);
                }
            }
        }
    }

    /// The handles that are cancelled when everything is drained are those of the restored, dialing
    /// and active peripherals, each once and the oldest first.
    pub proof fn law_drained_handles(self)
        ensures
            exists|at: Seq<int>| #[trigger] picks_owned(self.peripherals, at, self.owned()),
    {
        let at = lemma_owned(self.peripherals);
        assert(picks_owned(self.peripherals, at, self.owned()));
    }
}

/// The handles are those of the owned entries, which stand at the indices, in their order.
pub open spec fn picks_owned<P>(
    entries: Seq<CentralPeripheral<P>>,
    at: Seq<int>,
    handles: Seq<P>,
) -> bool {
    &&& at.len() == handles.len()
    &&& forall|h: int|
        0 <= h < at.len() ==> 0 <= #[trigger] at[h] < entries.len() && entries[at[h]].state
            != CentralPeripheralState::Observed && handles[h] == entries[at[h]].peripheral
    &&& forall|g: int, h: int| 0 <= g < h < at.len() ==> #[trigger] at[g] < #[trigger] at[h]
    &&& forall|i: int|
        0 <= i < entries.len() && (#[trigger] entries[i]).state
            != CentralPeripheralState::Observed ==> at.contains(i)
}

proof fn lemma_owned<P>(entries: Seq<CentralPeripheral<P>>) -> (at: Seq<int>)
    ensures
        picks_owned(
            entries,
            at,
            entries.filter(registry_model::is_owned()).map_values(registry_model::handle_of()),
        ),
    decreases entries.len(),
{
    reveal(Seq::filter);
    let p = registry_model::is_owned::<P>();
    let handles = entries.filter(p).map_values(registry_model::handle_of());
    if entries.len() == 0 {
        Seq::empty()
    } else {
        let earlier = entries.drop_last();
        let at0 = lemma_owned(earlier);
        let handles0 = earlier.filter(p).map_values(registry_model::handle_of());
        let last = entries.len() - 1;
        assert(p(entries[last]) == (entries[last].state != CentralPeripheralState::Observed));
        let at = if p(entries[last]) {
            at0.push(last)
        } else {
            at0
        };
        if p(entries[last]) {
            assert(handles =~= handles0.push(entries[last].peripheral));
        } else {
            assert(handles =~= handles0);
        }
        assert forall|i: int|
            0 <= i < entries.len() && (#[trigger] entries[i]).state
                != CentralPeripheralState::Observed implies at.contains(i) by {
            if i < last {
                assert(earlier[i] == entries[i]);
                let h = at0.index_of(i);
                assert(at[h] == i);
            } else {
                assert(at[at.len() - 1] == i);
            }
        }
        assert forall|h: int| 0 <= h < at.len() implies 0 <= #[trigger] at[h] < entries.len()
            && entries[at[h]].state != CentralPeripheralState::Observed && handles[h]
            == entries[at[h]].peripheral by {
            if h < at0.len() {
                assert(at[h] == at0[h]);
                assert(earlier[at0[h]] == entries[at0[h]]);
            }
        }
        at
    }
}

/// Without the peer, exactly the other restored peers are left.
proof fn lemma_restored_without<P, C>(registry: RegistryModel<P, C>, peer_id: CoreBluetoothPeerId)
    requires
        registry.wf(),
    ensures
        ({
            let rest: Seq<RestoredPeerModel<C>> = search::without(
                registry.restored,
                registry.record(peer_id),
            );
            &&& forall|k: int|
                0 <= k < rest.len() ==> (#[trigger] rest[k]).peer_id != peer_id
                    && registry.restored.contains(rest[k])
            &&& forall|k: int|
                0 <= k < registry.restored.len() && (#[trigger] registry.restored[k]).peer_id
                    != peer_id ==> rest.contains(registry.restored[k])
        }),
{
    registry.lemma_not_found(peer_id);
    let rest = search::without(registry.restored, registry.record(peer_id));
    if let Some(r) = registry.record(peer_id) {
        assert forall|k: int| 0 <= k < rest.len() implies (#[trigger] rest[k]).peer_id != peer_id
            && registry.restored.contains(rest[k]) by {
            let k0 = if k < r {
                k
            } else {
                k + 1
            };
            assert(rest[k] == registry.restored[k0]);
            if registry.restored[k0].peer_id == peer_id {
                registry.lemma_record_is(k0);
            }
        }
        assert forall|k: int|
            0 <= k < registry.restored.len() && (#[trigger] registry.restored[k]).peer_id
                != peer_id implies rest.contains(registry.restored[k]) by {
            if k < r {
                assert(rest[k] == registry.restored[k]);
            } else {
                assert(rest[k - 1] == registry.restored[k]);
            }
        }
    }
}

} // verus!
