//! What the central-role peer registry holds, and what each operation makes of it.

use crate::peer::{BleAddress, CoreBluetoothPeerId};
use crate::restored::{CallbackModel, RestoredCallbackBuffer};
use crate::search;
use vstd::prelude::*;

verus! {

/// How the registry answered a peripheral that CoreBluetooth restored.
#[derive(Clone, Copy, Debug, PartialEq, Eq, Structural)]
pub enum RestoredAdmission {
    Admitted,
    Updated,
    AlreadyOwned,
    Full,
}

/// How far the handoff of a restored peer has come.
#[derive(Clone, Copy, Debug, PartialEq, Eq, Structural)]
pub enum RestoredPhase {
    Queued,
    Offered,
    Claimed,
}

/// Who owns a registered peripheral.
#[derive(Clone, Copy, Debug, PartialEq, Eq, Structural)]
pub enum CentralPeripheralState {
    Observed,
    Restored,
    Dialing,
    Active,
}

/// One registered peripheral.
pub struct CentralPeripheral<P> {
    pub peer_id: CoreBluetoothPeerId,
    pub address: BleAddress,
    pub peripheral: P,
    pub rssi: Option<i8>,
    pub state: CentralPeripheralState,
    pub pending_sighting: bool,
}

/// One restored peer whose callbacks are buffered.
pub struct RestoredPeer<C> {
    pub peer_id: CoreBluetoothPeerId,
    pub phase: RestoredPhase,
    pub callbacks: RestoredCallbackBuffer<C>,
}

/// What a [`RestoredPeer`] holds.
pub struct RestoredPeerModel<C> {
    pub peer_id: CoreBluetoothPeerId,
    pub phase: RestoredPhase,
    pub callbacks: CallbackModel<C>,
}

impl<C> View for RestoredPeer<C> {
    type V = RestoredPeerModel<C>;

    open spec fn view(&self) -> RestoredPeerModel<C> {
        RestoredPeerModel {
            peer_id: self.peer_id,
            phase: self.phase,
            callbacks: self.callbacks@,
        }
    }
}

/// What a dial of an address finds.
#[derive(Debug)]
pub enum CentralDialCandidate<P> {
    Ready { peer_id: CoreBluetoothPeerId, peripheral: P, rssi: Option<i8>, restored: bool },
    Busy,
    Missing,
}

/// What became of a callback offered to the buffer of a restored peer.
#[derive(Debug)]
pub enum RestoredBufferResult<T> {
    Buffered,
    Overflowed,
    AlreadyFailed,
    NotRestored(T),
}

/// The entry is that of the peer.
pub open spec fn peer_is<P>(peer_id: CoreBluetoothPeerId) -> spec_fn(CentralPeripheral<P>) -> bool {
    |entry: CentralPeripheral<P>| entry.peer_id == peer_id
}

/// The entry stands at the synthetic address.
pub open spec fn at_address<P>(address: BleAddress) -> spec_fn(CentralPeripheral<P>) -> bool {
    |entry: CentralPeripheral<P>| entry.address == address
}

/// The entry is only an advisory observation.
pub open spec fn is_observed<P>() -> spec_fn(CentralPeripheral<P>) -> bool {
    |entry: CentralPeripheral<P>| entry.state == CentralPeripheralState::Observed
}

/// The registry owns a connection for the entry.
pub open spec fn is_owned<P>() -> spec_fn(CentralPeripheral<P>) -> bool {
    |entry: CentralPeripheral<P>| entry.state != CentralPeripheralState::Observed
}

/// The entry has a sighting that was not handed out.
pub open spec fn is_pending<P>() -> spec_fn(CentralPeripheral<P>) -> bool {
    |entry: CentralPeripheral<P>| entry.pending_sighting
}

/// The handle of an entry.
pub open spec fn handle_of<P>() -> spec_fn(CentralPeripheral<P>) -> P {
    |entry: CentralPeripheral<P>| entry.peripheral
}

/// The restored peer is the given one.
pub open spec fn restored_is<C>(peer_id: CoreBluetoothPeerId) -> spec_fn(
    RestoredPeerModel<C>,
) -> bool {
    |peer: RestoredPeerModel<C>| peer.peer_id == peer_id
}

/// The restored peer waits to be offered.
pub open spec fn is_queued<C>() -> spec_fn(RestoredPeerModel<C>) -> bool {
    |peer: RestoredPeerModel<C>| peer.phase == RestoredPhase::Queued
}

/// A peer in this phase of its handoff may stand in this state.
pub open spec fn phase_fits(phase: RestoredPhase, state: CentralPeripheralState) -> bool {
    match state {
        CentralPeripheralState::Observed => false,
        CentralPeripheralState::Restored => phase != RestoredPhase::Claimed,
        CentralPeripheralState::Dialing => phase == RestoredPhase::Claimed,
        CentralPeripheralState::Active => true,
    }
}

/// Some entry is that of the peer, in a state that fits the phase.
pub open spec fn owner_fits<P>(
    entries: Seq<CentralPeripheral<P>>,
    peer_id: CoreBluetoothPeerId,
    phase: RestoredPhase,
) -> bool {
    exists|k: int|
        0 <= k < entries.len() && (#[trigger] entries[k]).peer_id == peer_id && phase_fits(
            phase,
            entries[k].state,
        )
}

/// Some restored peer is the given one and is not claimed.
pub open spec fn awaits_claim<C>(
    restored: Seq<RestoredPeerModel<C>>,
    peer_id: CoreBluetoothPeerId,
) -> bool {
    exists|k: int|
        0 <= k < restored.len() && (#[trigger] restored[k]).peer_id == peer_id && restored[k].phase
            != RestoredPhase::Claimed
}

/// What the central-role peer registry holds.
pub struct RegistryModel<P, C> {
    pub peripheral_capacity: nat,
    pub restored_capacity: nat,
    pub callback_budget: nat,
    pub peripherals: Seq<CentralPeripheral<P>>,
    pub restored: Seq<RestoredPeerModel<C>>,
}

impl<P, C> RegistryModel<P, C> {
    /// A registry of the given capacities that holds nothing.
    pub open spec fn empty(
        peripheral_capacity: nat,
        restored_capacity: nat,
        callback_budget: nat,
    ) -> Self {
        RegistryModel {
            peripheral_capacity,
            restored_capacity,
            callback_budget,
            peripherals: Seq::empty(),
            restored: Seq::empty(),
        }
    }

    /// Both capacities are kept; each synthetic address and each restored peer occurs once; a
    /// restored peer has an owned entry in a state that fits its phase, and an entry in the
    /// restored state has a restored peer that nobody claimed.
    pub open spec fn wf(self) -> bool {
        &&& self.peripherals.len() <= self.peripheral_capacity
        &&& self.restored.len() <= self.restored_capacity
        &&& forall|i: int|
            0 <= i < self.peripherals.len() ==> (#[trigger] self.peripherals[i]).address
                == self.peripherals[i].peer_id.spec_address()
        &&& forall|i: int, j: int|
            0 <= i < j < self.peripherals.len() ==> (#[trigger] self.peripherals[i]).address != (
            #[trigger] self.peripherals[j]).address
        &&& forall|i: int, j: int|
            0 <= i < j < self.restored.len() ==> (#[trigger] self.restored[i]).peer_id != (
            #[trigger] self.restored[j]).peer_id
        &&& forall|i: int|
            0 <= i < self.restored.len() ==> {
                &&& (#[trigger] self.restored[i]).callbacks.wf()
                &&& self.restored[i].callbacks.budget == self.callback_budget
                &&& owner_fits(
                    self.peripherals,
                    self.restored[i].peer_id,
                    self.restored[i].phase,
                )
            }
        &&& forall|i: int|
            0 <= i < self.peripherals.len() && (#[trigger] self.peripherals[i]).state
                == CentralPeripheralState::Restored ==> awaits_claim(
                self.restored,
                self.peripherals[i].peer_id,
            )
    }

    /// Where the entry of the peer stands.
    pub open spec fn entry(self, peer_id: CoreBluetoothPeerId) -> Option<int> {
        search::first_where(self.peripherals, peer_is(peer_id))
    }

    /// Where the entry of the synthetic address stands.
    pub open spec fn slot(self, address: BleAddress) -> Option<int> {
        search::first_where(self.peripherals, at_address(address))
    }

    /// Where the peer stands among the restored ones.
    pub open spec fn record(self, peer_id: CoreBluetoothPeerId) -> Option<int> {
        search::first_where(self.restored, restored_is(peer_id))
    }

    /// The entries once room was made for a newcomer at the address, or nothing where no room can
    /// be made. An advisory observation at the same address gives way; with a free address and no
    /// free place, the oldest advisory observation does. An owned entry never gives way.
    pub open spec fn make_way(self, address: BleAddress) -> Option<Seq<CentralPeripheral<P>>> {
        match self.slot(address) {
            Some(i) => if self.peripherals[i].state == CentralPeripheralState::Observed {
                Some(self.peripherals.remove(i))
            } else {
                None
            },
            None => if self.peripherals.len() < self.peripheral_capacity {
                Some(self.peripherals)
            } else {
                match search::first_where(self.peripherals, is_observed()) {
                    Some(i) => Some(self.peripherals.remove(i)),
                    None => None,
                }
            },
        }
    }

    /// How a restored peripheral of the peer is answered.
    pub open spec fn admission(self, peer_id: CoreBluetoothPeerId) -> RestoredAdmission {
        match self.record(peer_id) {
            Some(r) => if self.restored[r].phase == RestoredPhase::Queued {
                RestoredAdmission::Updated
            } else {
                RestoredAdmission::AlreadyOwned
            },
            None => if self.restored.len() >= self.restored_capacity {
                RestoredAdmission::Full
            } else if self.entry(peer_id) matches Some(i) && self.peripherals[i].state
                != CentralPeripheralState::Observed {
                RestoredAdmission::AlreadyOwned
            } else if self.make_way(peer_id.spec_address()) is Some {
                RestoredAdmission::Admitted
            } else {
                RestoredAdmission::Full
            },
        }
    }

    /// The registry after a restored peripheral of the peer was presented.
    pub open spec fn admitted(self, peer_id: CoreBluetoothPeerId, peripheral: P) -> Self {
        match self.admission(peer_id) {
            RestoredAdmission::Admitted => RegistryModel {
                peripherals: self.make_way(peer_id.spec_address())->0.push(
                    CentralPeripheral {
                        peer_id,
                        address: peer_id.spec_address(),
                        peripheral,
                        rssi: None,
                        state: CentralPeripheralState::Restored,
                        pending_sighting: false,
                    },
                ),
                restored: self.restored.push(
                    RestoredPeerModel {
                        peer_id,
                        phase: RestoredPhase::Queued,
                        callbacks: CallbackModel::empty(self.callback_budget),
                    },
                ),
                ..self
            },
            RestoredAdmission::Updated => {
                let i = self.entry(peer_id)->0;
                RegistryModel {
                    peripherals: self.peripherals.update(
                        i,
                        CentralPeripheral { peripheral, rssi: None, ..self.peripherals[i] },
                    ),
                    ..self
                }
            },
            _ => self,
        }
    }

    /// The registry after the peer was observed.
    pub open spec fn observe(
        self,
        peer_id: CoreBluetoothPeerId,
        peripheral: P,
        rssi: Option<i8>,
    ) -> Self {
        match self.make_way(peer_id.spec_address()) {
            Some(rest) => RegistryModel {
                peripherals: rest.push(
                    CentralPeripheral {
                        peer_id,
                        address: peer_id.spec_address(),
                        peripheral,
                        rssi,
                        state: CentralPeripheralState::Observed,
                        pending_sighting: true,
                    },
                ),
                ..self
            },
            None => self,
        }
    }

    /// Where a dial of the address finds its peripheral.
    pub open spec fn claimable(self, address: BleAddress) -> bool {
        match self.slot(address) {
            Some(i) => match self.peripherals[i].state {
                CentralPeripheralState::Observed => true,
                CentralPeripheralState::Restored => match self.record(self.peripherals[i].peer_id) {
                    Some(r) => self.restored[r].phase == RestoredPhase::Offered,
                    None => false,
                },
                _ => false,
            },
            None => false,
        }
    }

    /// The registry after a dial of the address.
    pub open spec fn claimed(self, address: BleAddress) -> Self {
        if self.claimable(address) {
            let i = self.slot(address)->0;
            let entry = self.peripherals[i];
            let peripherals = self.peripherals.update(
                i,
                CentralPeripheral {
                    state: CentralPeripheralState::Dialing,
                    pending_sighting: false,
                    ..entry
                },
            );
            if entry.state == CentralPeripheralState::Restored {
                let r = self.record(entry.peer_id)->0;
                RegistryModel {
                    peripherals,
                    restored: self.restored.update(
                        r,
                        RestoredPeerModel { phase: RestoredPhase::Claimed, ..self.restored[r] },
                    ),
                    ..self
                }
            } else {
                RegistryModel { peripherals, ..self }
            }
        } else {
            self
        }
    }

    /// The registry after the next restored peer was offered.
    pub open spec fn offered(self) -> Self {
        match search::first_where(self.restored, is_queued()) {
            Some(r) => RegistryModel {
                restored: self.restored.update(
                    r,
                    RestoredPeerModel { phase: RestoredPhase::Offered, ..self.restored[r] },
                ),
                ..self
            },
            None => self,
        }
    }

    /// A dial of the peer is under way, so its session may begin.
    pub open spec fn dialing(self, peer_id: CoreBluetoothPeerId) -> bool {
        self.entry(peer_id) matches Some(i) && self.peripherals[i].state
            == CentralPeripheralState::Dialing
    }

    /// The registry after the session of the peer began.
    pub open spec fn begun(self, peer_id: CoreBluetoothPeerId) -> Self {
        if self.dialing(peer_id) {
            RegistryModel {
                restored: search::without(self.restored, self.record(peer_id)),
                ..self.activated(peer_id)
            }
        } else {
            self
        }
    }

    /// The registry with the entry of the peer active.
    pub open spec fn activated(self, peer_id: CoreBluetoothPeerId) -> Self {
        match self.entry(peer_id) {
            Some(i) => RegistryModel {
                peripherals: self.peripherals.update(
                    i,
                    CentralPeripheral {
                        state: CentralPeripheralState::Active,
                        ..self.peripherals[i]
                    },
                ),
                ..self
            },
            None => self,
        }
    }

    /// The registry without the peer.
    pub open spec fn removed(self, peer_id: CoreBluetoothPeerId) -> Self {
        RegistryModel {
            peripherals: search::without(self.peripherals, self.entry(peer_id)),
            restored: search::without(self.restored, self.record(peer_id)),
            ..self
        }
    }

    /// The handle that is registered for the peer.
    pub open spec fn handle(self, peer_id: CoreBluetoothPeerId) -> Option<P> {
        match self.entry(peer_id) {
            Some(i) => Some(self.peripherals[i].peripheral),
            None => None,
        }
    }

    /// The registry without anything.
    pub open spec fn drained(self) -> Self {
        RegistryModel { peripherals: Seq::empty(), restored: Seq::empty(), ..self }
    }

    /// The handles of the entries for which the registry owns a connection, oldest first.
    pub open spec fn owned(self) -> Seq<P> {
        self.peripherals.filter(is_owned()).map_values(handle_of())
    }

    /// The registry after the next sighting was handed out.
    pub open spec fn sighted(self) -> Self {
        match search::first_where(self.peripherals, is_pending()) {
            Some(i) => RegistryModel {
                peripherals: self.peripherals.update(
                    i,
                    CentralPeripheral { pending_sighting: false, ..self.peripherals[i] },
                ),
                ..self
            },
            None => self,
        }
    }

    /// The registry with other callbacks for the restored peer at the index.
    pub open spec fn with_callbacks(self, r: int, callbacks: CallbackModel<C>) -> Self {
        RegistryModel {
            restored: self.restored.update(
                r,
                RestoredPeerModel { callbacks, ..self.restored[r] },
            ),
            ..self
        }
    }
}

/// An owner other than the removed entry still owns.
proof fn lemma_owner_survives_removal<P>(
    entries: Seq<CentralPeripheral<P>>,
    j: int,
    peer_id: CoreBluetoothPeerId,
    phase: RestoredPhase,
)
    requires
        0 <= j < entries.len(),
        entries[j].peer_id != peer_id || !phase_fits(phase, entries[j].state),
        owner_fits(entries, peer_id, phase),
    ensures
        owner_fits(entries.remove(j), peer_id, phase),
{
    let k = choose|k: int|
        0 <= k < entries.len() && (#[trigger] entries[k]).peer_id == peer_id && phase_fits(
            phase,
            entries[k].state,
        );
    let rest = entries.remove(j);
    if k < j {
        assert(rest[k] == entries[k]);
    } else {
        assert(rest[k - 1] == entries[k]);
    }
}

proof fn lemma_owner_survives_push<P>(
    entries: Seq<CentralPeripheral<P>>,
    entry: CentralPeripheral<P>,
    peer_id: CoreBluetoothPeerId,
    phase: RestoredPhase,
)
    requires
        owner_fits(entries, peer_id, phase),
    ensures
        owner_fits(entries.push(entry), peer_id, phase),
{
    let k = choose|k: int|
        0 <= k < entries.len() && (#[trigger] entries[k]).peer_id == peer_id && phase_fits(
            phase,
            entries[k].state,
        );
    assert(entries.push(entry)[k] == entries[k]);
}

proof fn lemma_owner_survives_update<P>(
    entries: Seq<CentralPeripheral<P>>,
    i: int,
    entry: CentralPeripheral<P>,
    peer_id: CoreBluetoothPeerId,
    phase: RestoredPhase,
)
    requires
        0 <= i < entries.len(),
        owner_fits(entries, peer_id, phase),
        entries[i].peer_id == peer_id && phase_fits(phase, entries[i].state) ==> entry.peer_id
            == peer_id && phase_fits(phase, entry.state),
    ensures
        owner_fits(entries.update(i, entry), peer_id, phase),
{
    let k = choose|k: int|
        0 <= k < entries.len() && (#[trigger] entries[k]).peer_id == peer_id && phase_fits(
            phase,
            entries[k].state,
        );
    let next = entries.update(i, entry);
    if k == i {
        assert(next[i] == entry);
    } else {
        assert(next[k] == entries[k]);
    }
}

impl<P, C> RegistryModel<P, C> {
    /// Two entries of one peer are one entry.
    proof fn lemma_entry_unique(self, i: int, j: int)
        requires
            self.wf(),
            0 <= i < self.peripherals.len(),
            0 <= j < self.peripherals.len(),
            self.peripherals[i].peer_id == self.peripherals[j].peer_id,
        ensures
            i == j,
    {
    }

    proof fn lemma_drop_observed(self, j: int)
        requires
            self.wf(),
            0 <= j < self.peripherals.len(),
            self.peripherals[j].state == CentralPeripheralState::Observed,
        ensures
            (RegistryModel { peripherals: self.peripherals.remove(j), ..self }).wf(),
    {
        let next = RegistryModel { peripherals: self.peripherals.remove(j), ..self };
        assert forall|i: int| 0 <= i < next.peripherals.len() implies (
        #[trigger] next.peripherals[i]) == self.peripherals[if i < j {
            i
        } else {
            i + 1
        }] by {}
        assert forall|i: int| 0 <= i < next.restored.len() implies owner_fits(
            next.peripherals,
            (#[trigger] next.restored[i]).peer_id,
            next.restored[i].phase,
        ) by {
            lemma_owner_survives_removal(
                self.peripherals,
                j,
                self.restored[i].peer_id,
                self.restored[i].phase,
            );
        }
    }

    /// Room made for a newcomer keeps the registry well formed, leaves a free place, and leaves
    /// the address free.
    proof fn lemma_make_way(self, address: BleAddress)
        requires
            self.wf(),
        ensures
            self.make_way(address) matches Some(rest) ==> {
                &&& (RegistryModel { peripherals: rest, ..self }).wf()
                &&& rest.len() < self.peripheral_capacity
                &&& forall|i: int|
                    0 <= i < rest.len() ==> (#[trigger] rest[i]).address != address
            },
    {
        search::lemma_first_where(self.peripherals, at_address(address));
        search::lemma_first_where(self.peripherals, is_observed());
        let p = at_address::<P>(address);
        match self.slot(address) {
            Some(i) => {
                assert(p(self.peripherals[i]));
                if self.peripherals[i].state == CentralPeripheralState::Observed {
                    self.lemma_drop_observed(i);
                    let rest = self.peripherals.remove(i);
                    assert forall|k: int| 0 <= k < rest.len() implies (#[trigger] rest[k]).address
                        != address by {
                        if k < i {
                            assert(rest[k] == self.peripherals[k]);
                        } else {
                            assert(rest[k] == self.peripherals[k + 1]);
                        }
                    }
                }
            },
            None => {
                assert forall|k: int| 0 <= k < self.peripherals.len() implies (
                #[trigger] self.peripherals[k]).address != address by {
                    assert(!p(self.peripherals[k]));
                }
                if self.peripherals.len() >= self.peripheral_capacity {
                    match search::first_where(self.peripherals, is_observed()) {
                        Some(i) => {
                            assert((is_observed::<P>())(self.peripherals[i]));
                            self.lemma_drop_observed(i);
                            let rest = self.peripherals.remove(i);
                            assert forall|k: int| 0 <= k < rest.len() implies (
                            #[trigger] rest[k]).address != address by {
                                if k < i {
                                    assert(rest[k] == self.peripherals[k]);
                                } else {
                                    assert(rest[k] == self.peripherals[k + 1]);
                                }
                            }
                        },
                        None => {},
                    }
                }
            },
        }
    }

    /// Observing a peer keeps the registry well formed.
    pub proof fn law_observe_keeps_wf(
        self,
        peer_id: CoreBluetoothPeerId,
        peripheral: P,
        rssi: Option<i8>,
    )
        requires
            self.wf(),
        ensures
            self.observe(peer_id, peripheral, rssi).wf(),
    {
        let address = peer_id.spec_address();
        self.lemma_make_way(address);
        match self.make_way(address) {
            Some(rest) => {
                let mid = RegistryModel { peripherals: rest, ..self };
                let next = self.observe(peer_id, peripheral, rssi);
                let entry = next.peripherals.last();
                assert(next.peripherals == rest.push(entry));
                assert forall|i: int| 0 <= i < next.restored.len() implies owner_fits(
                    next.peripherals,
                    (#[trigger] next.restored[i]).peer_id,
                    next.restored[i].phase,
                ) by {
                    assert(mid.restored[i] == next.restored[i]);
                    lemma_owner_survives_push(
                        rest,
                        entry,
                        next.restored[i].peer_id,
                        next.restored[i].phase,
                    );
                }
                assert forall|i: int|
                    0 <= i < next.peripherals.len() && (#[trigger] next.peripherals[i]).state
                        == CentralPeripheralState::Restored implies awaits_claim(
                    next.restored,
                    next.peripherals[i].peer_id,
                ) by {
                    assert(mid.peripherals[i] == next.peripherals[i]);
                }
                assert forall|i: int, j: int| 0 <= i < j < next.peripherals.len() implies (
                #[trigger] next.peripherals[i]).address != (
                #[trigger] next.peripherals[j]).address by {
                    assert(mid.peripherals[i] == next.peripherals[i]);
                    if j < rest.len() {
                        assert(mid.peripherals[j] == next.peripherals[j]);
                    }
                }
                assert forall|i: int| 0 <= i < next.peripherals.len() implies (
                #[trigger] next.peripherals[i]).address
                    == next.peripherals[i].peer_id.spec_address() by {
                    if i < rest.len() {
                        assert(mid.peripherals[i] == next.peripherals[i]);
                    }
                }
            },
            None => {},
        }
    }
}

impl<P, C> RegistryModel<P, C> {
    /// What each restored peer needs of the entries carries over to entries that keep its owner.
    proof fn lemma_updated_entry(self, i: int, entry: CentralPeripheral<P>)
        requires
            self.wf(),
            0 <= i < self.peripherals.len(),
            entry.peer_id == self.peripherals[i].peer_id,
            entry.address == self.peripherals[i].address,
            entry.state == self.peripherals[i].state || entry.state
                == CentralPeripheralState::Active,
        ensures
            (RegistryModel { peripherals: self.peripherals.update(i, entry), ..self }).wf(),
    {
        let next = RegistryModel { peripherals: self.peripherals.update(i, entry), ..self };
        assert forall|r: int| 0 <= r < next.restored.len() implies owner_fits(
            next.peripherals,
            (#[trigger] next.restored[r]).peer_id,
            next.restored[r].phase,
        ) by {
            lemma_owner_survives_update(
                self.peripherals,
                i,
                entry,
                self.restored[r].peer_id,
                self.restored[r].phase,
            );
        }
    }

    /// Presenting a restored peripheral keeps the registry well formed.
    pub proof fn law_admission_keeps_wf(self, peer_id: CoreBluetoothPeerId, peripheral: P)
        requires
            self.wf(),
        ensures
            self.admitted(peer_id, peripheral).wf(),
    {
        let address = peer_id.spec_address();
        let next = self.admitted(peer_id, peripheral);
        search::lemma_first_where(self.peripherals, peer_is(peer_id));
        search::lemma_first_where(self.restored, restored_is(peer_id));
        match self.admission(peer_id) {
            RestoredAdmission::Updated => {
                let r = self.record(peer_id)->0;
                assert((restored_is::<C>(peer_id))(self.restored[r]));
                self.lemma_owner_has_entry(r);
                let i = self.entry(peer_id)->0;
                assert((peer_is::<P>(peer_id))(self.peripherals[i]));
                self.lemma_updated_entry(i, next.peripherals[i]);
            },
            RestoredAdmission::Admitted => {
                self.lemma_make_way(address);
                let rest = self.make_way(address)->0;
                let mid = RegistryModel { peripherals: rest, ..self };
                let entry = next.peripherals.last();
                let record = next.restored.last();
                assert(next.peripherals == rest.push(entry));
                assert(next.restored == self.restored.push(record));
                let n = self.restored.len() as int;
                let p = restored_is::<C>(peer_id);
                assert forall|r: int| 0 <= r < n implies (#[trigger] self.restored[r]).peer_id
                    != peer_id by {
                    assert(!p(self.restored[r]));
                }
                assert(entry == next.peripherals[rest.len() as int]);
                assert(record == next.restored[n]);
                assert forall|r: int| 0 <= r < next.restored.len() implies {
                    &&& (#[trigger] next.restored[r]).callbacks.wf()
                    &&& next.restored[r].callbacks.budget == next.callback_budget
                    &&& owner_fits(next.peripherals, next.restored[r].peer_id, next.restored[r].phase)
                } by {
                    if r < n {
                        assert(mid.restored[r] == next.restored[r]);
                        lemma_owner_survives_push(
                            rest,
                            entry,
                            next.restored[r].peer_id,
                            next.restored[r].phase,
                        );
                    }
                }
                assert forall|i: int, j: int| 0 <= i < j < next.restored.len() implies (
                #[trigger] next.restored[i]).peer_id != (#[trigger] next.restored[j]).peer_id by {
                    assert(self.restored[i] == next.restored[i]);
                    if j < n {
                        assert(self.restored[j] == next.restored[j]);
                    }
                }
                assert forall|i: int|
                    0 <= i < next.peripherals.len() && (#[trigger] next.peripherals[i]).state
                        == CentralPeripheralState::Restored implies awaits_claim(
                    next.restored,
                    next.peripherals[i].peer_id,
                ) by {
                    if i < rest.len() {
                        assert(mid.peripherals[i] == next.peripherals[i]);
                        let k = choose|k: int|
                            0 <= k < n && (#[trigger] self.restored[k]).peer_id
                                == mid.peripherals[i].peer_id && self.restored[k].phase
                                != RestoredPhase::Claimed;
                        assert(next.restored[k] == self.restored[k]);
                    }
                }
                assert forall|i: int, j: int| 0 <= i < j < next.peripherals.len() implies (
                #[trigger] next.peripherals[i]).address != (
                #[trigger] next.peripherals[j]).address by {
                    assert(mid.peripherals[i] == next.peripherals[i]);
                    if j < rest.len() {
                        assert(mid.peripherals[j] == next.peripherals[j]);
                    }
                }
                assert forall|i: int| 0 <= i < next.peripherals.len() implies (
                #[trigger] next.peripherals[i]).address
                    == next.peripherals[i].peer_id.spec_address() by {
                    if i < rest.len() {
                        assert(mid.peripherals[i] == next.peripherals[i]);
                    }
                }
            },
            _ => {},
        }
    }

    /// A restored peer has an entry, in a state that fits its phase.
    pub proof fn lemma_owner_has_entry(self, r: int)
        requires
            self.wf(),
            0 <= r < self.restored.len(),
        ensures
            self.entry(self.restored[r].peer_id) matches Some(i) && 0 <= i < self.peripherals.len()
                && self.peripherals[i].peer_id == self.restored[r].peer_id && phase_fits(
                self.restored[r].phase,
                self.peripherals[i].state,
            ),
    {
        let peer_id = self.restored[r].peer_id;
        let phase = self.restored[r].phase;
        let p = peer_is::<P>(peer_id);
        assert(owner_fits(self.peripherals, peer_id, phase));
        let k = choose|k: int|
            0 <= k < self.peripherals.len() && (#[trigger] self.peripherals[k]).peer_id == peer_id
                && phase_fits(phase, self.peripherals[k].state);
        search::lemma_first_where(self.peripherals, p);
        assert(p(self.peripherals[k]));
        let i = self.entry(peer_id)->0;
        assert(p(self.peripherals[i]));
        self.lemma_entry_unique(i, k);
    }

    /// A registered peer is the one that is found at its address, so a dial of the address never
    /// reaches another.
    pub proof fn law_peer_is_found_at_its_address(self, peer_id: CoreBluetoothPeerId)
        requires
            self.wf(),
            self.entry(peer_id) is Some,
        ensures
            self.slot(peer_id.spec_address()) == self.entry(peer_id),
    {
        let p = peer_is::<P>(peer_id);
        let q = at_address::<P>(peer_id.spec_address());
        search::lemma_first_where(self.peripherals, p);
        let i = self.entry(peer_id)->0;
        assert(p(self.peripherals[i]));
        assert forall|j: int| 0 <= j < i implies !q(#[trigger] self.peripherals[j]) by {}
        search::lemma_first_where_is(self.peripherals, q, i);
    }

    proof fn lemma_rephased(self, r: int, phase: RestoredPhase)
        requires
            self.wf(),
            0 <= r < self.restored.len(),
            self.restored[r].phase == RestoredPhase::Queued,
            phase == RestoredPhase::Offered,
        ensures
            (RegistryModel {
                restored: self.restored.update(
                    r,
                    RestoredPeerModel { phase, ..self.restored[r] },
                ),
                ..self
            }).wf(),
    {
        let next = RegistryModel {
            restored: self.restored.update(r, RestoredPeerModel { phase, ..self.restored[r] }),
            ..self
        };
        assert forall|k: int| 0 <= k < next.restored.len() implies owner_fits(
            next.peripherals,
            (#[trigger] next.restored[k]).peer_id,
            next.restored[k].phase,
        ) by {
            assert(owner_fits(self.peripherals, self.restored[k].peer_id, self.restored[k].phase));
            let o = choose|o: int|
                0 <= o < self.peripherals.len() && (#[trigger] self.peripherals[o]).peer_id
                    == self.restored[k].peer_id && phase_fits(
                    self.restored[k].phase,
                    self.peripherals[o].state,
                );
            assert(next.peripherals[o].peer_id == next.restored[k].peer_id);
        }
        assert forall|i: int|
            0 <= i < next.peripherals.len() && (#[trigger] next.peripherals[i]).state
                == CentralPeripheralState::Restored implies awaits_claim(
            next.restored,
            next.peripherals[i].peer_id,
        ) by {
            assert(awaits_claim(self.restored, self.peripherals[i].peer_id));
            let k = choose|k: int|
                0 <= k < self.restored.len() && (#[trigger] self.restored[k]).peer_id
                    == self.peripherals[i].peer_id && self.restored[k].phase
                    != RestoredPhase::Claimed;
            assert(next.restored[k].peer_id == next.peripherals[i].peer_id);
        }
    }

    /// Offering a restored peer keeps the registry well formed.
    pub proof fn law_offer_keeps_wf(self)
        requires
            self.wf(),
        ensures
            self.offered().wf(),
    {
        search::lemma_first_where(self.restored, is_queued());
        match search::first_where(self.restored, is_queued()) {
            Some(r) => {
                assert((is_queued::<C>())(self.restored[r]));
                self.lemma_rephased(r, RestoredPhase::Offered);
            },
            None => {},
        }
    }

    /// Marking a peer active keeps the registry well formed.
    pub proof fn law_activation_keeps_wf(self, peer_id: CoreBluetoothPeerId)
        requires
            self.wf(),
        ensures
            self.activated(peer_id).wf(),
    {
        search::lemma_first_where(self.peripherals, peer_is(peer_id));
        match self.entry(peer_id) {
            Some(i) => {
                assert((peer_is::<P>(peer_id))(self.peripherals[i]));
                self.lemma_updated_entry(i, self.activated(peer_id).peripherals[i]);
            },
            None => {},
        }
    }

    /// Handing out a sighting keeps the registry well formed.
    pub proof fn law_sighting_keeps_wf(self)
        requires
            self.wf(),
        ensures
            self.sighted().wf(),
    {
        search::lemma_first_where(self.peripherals, is_pending());
        match search::first_where(self.peripherals, is_pending()) {
            Some(i) => {
                self.lemma_updated_entry(i, self.sighted().peripherals[i]);
            },
            None => {},
        }
    }

    /// Other callbacks within the limits keep the registry well formed.
    pub proof fn law_callbacks_keep_wf(self, r: int, callbacks: CallbackModel<C>)
        requires
            self.wf(),
            0 <= r < self.restored.len(),
            callbacks.wf(),
            callbacks.budget == self.callback_budget,
        ensures
            self.with_callbacks(r, callbacks).wf(),
    {
        let next = self.with_callbacks(r, callbacks);
        assert forall|k: int| 0 <= k < next.restored.len() implies owner_fits(
            next.peripherals,
            (#[trigger] next.restored[k]).peer_id,
            next.restored[k].phase,
        ) by {
            assert(owner_fits(self.peripherals, self.restored[k].peer_id, self.restored[k].phase));
        }
        assert forall|i: int|
            0 <= i < next.peripherals.len() && (#[trigger] next.peripherals[i]).state
                == CentralPeripheralState::Restored implies awaits_claim(
            next.restored,
            next.peripherals[i].peer_id,
        ) by {
            assert(awaits_claim(self.restored, self.peripherals[i].peer_id));
            let k = choose|k: int|
                0 <= k < self.restored.len() && (#[trigger] self.restored[k]).peer_id
                    == self.peripherals[i].peer_id && self.restored[k].phase
                    != RestoredPhase::Claimed;
            assert(next.restored[k].peer_id == next.peripherals[i].peer_id);
        }
    }

    /// Dialing an address keeps the registry well formed.
    pub proof fn law_claim_keeps_wf(self, address: BleAddress)
        requires
            self.wf(),
        ensures
            self.claimed(address).wf(),
    {
        let next = self.claimed(address);
        if self.claimable(address) {
            search::lemma_first_where(self.peripherals, at_address(address));
            let i = self.slot(address)->0;
            let peer_id = self.peripherals[i].peer_id;
            search::lemma_first_where(self.restored, restored_is(peer_id));
            if self.peripherals[i].state == CentralPeripheralState::Restored {
                let c = self.record(peer_id)->0;
                assert((restored_is::<C>(peer_id))(self.restored[c]));
                assert forall|k: int| 0 <= k < next.restored.len() implies owner_fits(
                    next.peripherals,
                    (#[trigger] next.restored[k]).peer_id,
                    next.restored[k].phase,
                ) by {
                    assert(owner_fits(
                        self.peripherals,
                        self.restored[k].peer_id,
                        self.restored[k].phase,
                    ));
                    if k == c {
                        assert(next.peripherals[i].peer_id == peer_id);
                    } else {
                        lemma_owner_survives_update(
                            self.peripherals,
                            i,
                            next.peripherals[i],
                            self.restored[k].peer_id,
                            self.restored[k].phase,
                        );
                    }
                }
                assert forall|j: int|
                    0 <= j < next.peripherals.len() && (#[trigger] next.peripherals[j]).state
                        == CentralPeripheralState::Restored implies awaits_claim(
                    next.restored,
                    next.peripherals[j].peer_id,
                ) by {
                    assert(awaits_claim(self.restored, self.peripherals[j].peer_id));
                    let k = choose|k: int|
                        0 <= k < self.restored.len() && (#[trigger] self.restored[k]).peer_id
                            == self.peripherals[j].peer_id && self.restored[k].phase
                            != RestoredPhase::Claimed;
                    if k == c {
                        self.lemma_entry_unique(i, j);
                    }
                    assert(next.restored[k] == self.restored[k]);
                }
            } else {
                assert forall|k: int| 0 <= k < next.restored.len() implies owner_fits(
                    next.peripherals,
                    (#[trigger] next.restored[k]).peer_id,
                    next.restored[k].phase,
                ) by {
                    lemma_owner_survives_update(
                        self.peripherals,
                        i,
                        next.peripherals[i],
                        self.restored[k].peer_id,
                        self.restored[k].phase,
                    );
                }
                assert forall|j: int|
                    0 <= j < next.peripherals.len() && (#[trigger] next.peripherals[j]).state
                        == CentralPeripheralState::Restored implies awaits_claim(
                    next.restored,
                    next.peripherals[j].peer_id,
                ) by {
                    assert(self.peripherals[j] == next.peripherals[j]);
                }
            }
        }
    }

    /// Dropping the restored state of a peer that needs none keeps the registry well formed.
    proof fn lemma_without_record(self, peer_id: CoreBluetoothPeerId)
        requires
            self.wf(),
            forall|i: int|
                0 <= i < self.peripherals.len() && (#[trigger] self.peripherals[i]).peer_id
                    == peer_id ==> self.peripherals[i].state != CentralPeripheralState::Restored,
        ensures
            (RegistryModel {
                restored: search::without(self.restored, self.record(peer_id)),
                ..self
            }).wf(),
            forall|r: int|
                0 <= r < search::without(self.restored, self.record(peer_id)).len() ==> (
                #[trigger] search::without(self.restored, self.record(peer_id))[r]).peer_id != peer_id,
    {
        let p = restored_is::<C>(peer_id);
        search::lemma_first_where(self.restored, p);
        let next = RegistryModel {
            restored: search::without(self.restored, self.record(peer_id)),
            ..self
        };
        match self.record(peer_id) {
            Some(c) => {
                assert(p(self.restored[c]));
                assert forall|k: int| 0 <= k < next.restored.len() implies (
                #[trigger] next.restored[k]) == self.restored[if k < c {
                    k
                } else {
                    k + 1
                }] by {}
                assert forall|k: int| 0 <= k < next.restored.len() implies owner_fits(
                    next.peripherals,
                    (#[trigger] next.restored[k]).peer_id,
                    next.restored[k].phase,
                ) by {
                    let k0 = if k < c {
                        k
                    } else {
                        k + 1
                    };
                    assert(owner_fits(
                        self.peripherals,
                        self.restored[k0].peer_id,
                        self.restored[k0].phase,
                    ));
                }
                assert forall|j: int|
                    0 <= j < next.peripherals.len() && (#[trigger] next.peripherals[j]).state
                        == CentralPeripheralState::Restored implies awaits_claim(
                    next.restored,
                    next.peripherals[j].peer_id,
                ) by {
                    assert(awaits_claim(self.restored, self.peripherals[j].peer_id));
                    let k = choose|k: int|
                        0 <= k < self.restored.len() && (#[trigger] self.restored[k]).peer_id
                            == self.peripherals[j].peer_id && self.restored[k].phase
                            != RestoredPhase::Claimed;
                    assert(k != c);
                    if k < c {
                        assert(next.restored[k] == self.restored[k]);
                    } else {
                        assert(next.restored[k - 1] == self.restored[k]);
                    }
                }
            },
            None => {
                assert forall|r: int| 0 <= r < self.restored.len() implies (
                #[trigger] self.restored[r]).peer_id != peer_id by {
                    assert(!p(self.restored[r]));
                }
            },
        }
    }

    /// Beginning a session keeps the registry well formed.
    pub proof fn law_begin_keeps_wf(self, peer_id: CoreBluetoothPeerId)
        requires
            self.wf(),
        ensures
            self.begun(peer_id).wf(),
    {
        if self.dialing(peer_id) {
            self.law_activation_keeps_wf(peer_id);
            let active = self.activated(peer_id);
            let p = peer_is::<P>(peer_id);
            search::lemma_first_where(self.peripherals, p);
            let i = self.entry(peer_id)->0;
            assert(p(self.peripherals[i]));
            assert forall|j: int|
                0 <= j < active.peripherals.len() && (#[trigger] active.peripherals[j]).peer_id
                    == peer_id implies active.peripherals[j].state
                != CentralPeripheralState::Restored by {
                self.lemma_entry_unique(i, j);
            }
            active.lemma_without_record(peer_id);
        }
    }

    /// Removing a peer keeps the registry well formed and leaves nothing of the peer.
    pub proof fn law_removal(self, peer_id: CoreBluetoothPeerId)
        requires
            self.wf(),
        ensures
            self.removed(peer_id).wf(),
            self.removed(peer_id).entry(peer_id) is None,
            self.removed(peer_id).record(peer_id) is None,
    {
        let p = peer_is::<P>(peer_id);
        let q = restored_is::<C>(peer_id);
        search::lemma_first_where(self.peripherals, p);
        let next = self.removed(peer_id);
        let base = match self.entry(peer_id) {
            Some(i) => {
                assert(p(self.peripherals[i]));
                let entry = CentralPeripheral {
                    state: CentralPeripheralState::Active,
                    ..self.peripherals[i]
                };
                self.lemma_updated_entry(i, entry);
                RegistryModel { peripherals: self.peripherals.update(i, entry), ..self }
            },
            None => self,
        };
        assert forall|j: int|
            0 <= j < base.peripherals.len() && (#[trigger] base.peripherals[j]).peer_id
                == peer_id implies base.peripherals[j].state != CentralPeripheralState::Restored by {
            match self.entry(peer_id) {
                Some(i) => {
                    assert(self.peripherals[j].peer_id == peer_id);
                    self.lemma_entry_unique(i, j);
                },
                None => {
                    assert(!p(self.peripherals[j]));
                },
            }
        }
        base.lemma_without_record(peer_id);
        let mid = RegistryModel { restored: next.restored, ..base };
        match self.entry(peer_id) {
            Some(i) => {
                assert(next.peripherals =~= mid.peripherals.remove(i));
                assert forall|j: int| 0 <= j < next.peripherals.len() implies (
                #[trigger] next.peripherals[j]) == mid.peripherals[if j < i {
                    j
                } else {
                    j + 1
                }] by {}
                assert forall|k: int| 0 <= k < next.restored.len() implies owner_fits(
                    next.peripherals,
                    (#[trigger] next.restored[k]).peer_id,
                    next.restored[k].phase,
                ) by {
                    assert(owner_fits(
                        mid.peripherals,
                        mid.restored[k].peer_id,
                        mid.restored[k].phase,
                    ));
                    lemma_owner_survives_removal(
                        mid.peripherals,
                        i,
                        mid.restored[k].peer_id,
                        mid.restored[k].phase,
                    );
                }
            },
            None => {},
        }
        search::lemma_first_where(next.peripherals, p);
        search::lemma_first_where(next.restored, q);
        match next.entry(peer_id) {
            Some(j) => {
                assert(p(next.peripherals[j]));
                match self.entry(peer_id) {
                    Some(i) => {
                        let j0 = if j < i {
                            j
                        } else {
                            j + 1
                        };
                        assert(next.peripherals[j] == self.peripherals[j0]);
                        self.lemma_entry_unique(i, j0);
                    },
                    None => {
                        assert(!p(self.peripherals[j]));
                    },
                }
            },
            None => {},
        }
        match next.record(peer_id) {
            Some(r) => {
                assert(q(next.restored[r]));
            },
            None => {},
        }
    }

    /// Beginning a session moves no handle.
    pub proof fn lemma_begun_handle(self, peer_id: CoreBluetoothPeerId)
        requires
            self.wf(),
        ensures
            self.begun(peer_id).handle(peer_id) == self.handle(peer_id),
    {
        let p = peer_is::<P>(peer_id);
        search::lemma_first_where(self.peripherals, p);
        if self.dialing(peer_id) {
            let i = self.entry(peer_id)->0;
            let next = self.begun(peer_id).peripherals;
            assert(p(self.peripherals[i]));
            assert(p(next[i]));
            assert forall|j: int| 0 <= j < i implies !p(#[trigger] next[j]) by {
                assert(!p(self.peripherals[j]));
            }
            search::lemma_first_where_is(next, p, i);
        }
    }
}

} // verus!
