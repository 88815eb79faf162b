//! What a discovered peripheral is worth.

use crate::dial::PeripheralLinkState;
use crate::peer::CoreBluetoothPeerId;
use crate::peer_map::PeerMap;
use crate::search;
use crate::search::position;
use std::collections::VecDeque;
use vstd::prelude::*;

verus! {

/// The central role has a session with the discovered peer.
#[derive(Clone, Copy, Debug, PartialEq, Eq, Structural)]
pub enum SessionPresence {
    Present,
    Absent,
}

/// The stale link of the discovered peer is being cancelled.
#[derive(Clone, Copy, Debug, PartialEq, Eq, Structural)]
pub enum StaleCancellation {
    Idle,
    InFlight,
}

/// Stale links are cancelled on this platform.
#[derive(Clone, Copy, Debug, PartialEq, Eq, Structural)]
pub enum StaleLinkRecovery {
    Enabled,
    Disabled,
}

/// What is made of a discovered peripheral.
#[derive(Clone, Copy, Debug, PartialEq, Eq, Structural)]
pub enum DiscoverDisposition {
    Adopt,
    IgnoreOwned,
    CancelStale,
    WaitForDisconnect,
}

/// What is made of a discovered peripheral: one with a session is owned, a disconnected one is
/// adopted, and a link that nobody owns is cancelled once where that is wanted.
pub open spec fn disposition(
    state: PeripheralLinkState,
    session: SessionPresence,
    cancellation: StaleCancellation,
    recovery: StaleLinkRecovery,
) -> DiscoverDisposition {
    if session is Present {
        DiscoverDisposition::IgnoreOwned
    } else if state is Disconnected {
        DiscoverDisposition::Adopt
    } else if (state is Connecting || state is Connected) && cancellation is Idle
        && recovery is Enabled {
        DiscoverDisposition::CancelStale
    } else {
        DiscoverDisposition::WaitForDisconnect
    }
}

/// Decides what is made of a discovered peripheral.
pub fn discover_disposition(
    state: PeripheralLinkState,
    session: SessionPresence,
    cancellation: StaleCancellation,
    recovery: StaleLinkRecovery,
) -> (r: DiscoverDisposition)
    ensures
        r == disposition(state, session, cancellation, recovery),
{
    match (session, state) {
        (SessionPresence::Present, _) => DiscoverDisposition::IgnoreOwned,
        (SessionPresence::Absent, PeripheralLinkState::Disconnected) => DiscoverDisposition::Adopt,
        (
            SessionPresence::Absent,
            PeripheralLinkState::Connecting | PeripheralLinkState::Connected,
        ) => match (cancellation, recovery) {
            (StaleCancellation::Idle, StaleLinkRecovery::Enabled) => {
                DiscoverDisposition::CancelStale
            },
            _ => DiscoverDisposition::WaitForDisconnect,
        },
        _ => DiscoverDisposition::WaitForDisconnect,
    }
}

/// A peripheral with a session is left alone, and so is a link that is on its way up or down while
/// nothing is to be cancelled: only a disconnected peripheral is ever adopted.
pub proof fn law_only_free_peripherals_are_adopted(
    state: PeripheralLinkState,
    session: SessionPresence,
    cancellation: StaleCancellation,
    recovery: StaleLinkRecovery,
)
    ensures
        disposition(state, session, cancellation, recovery) is Adopt <==> session is Absent
            && state is Disconnected,
        disposition(state, session, cancellation, recovery) is CancelStale ==> session is Absent
            && cancellation is Idle && recovery is Enabled,
{
}

/// How likely an advertisement is to come from a peer of this network.
#[derive(Clone, Copy, Debug, PartialEq, Eq, Structural)]
pub enum CandidateStrength {
    Strong,
    Weak,
}

/// The manufacturer data opens with the marker of this network.
pub open spec fn marked(manufacturer_data: Seq<u8>) -> bool {
    seq![0xffu8, 0xffu8, 0x03u8].is_prefix_of(manufacturer_data)
}

/// An advertisement is a strong candidate where it carries the network's name or its manufacturer
/// marker.
pub fn candidate_strength(named: bool, manufacturer_data: Option<&[u8]>) -> (r: CandidateStrength)
    ensures
        r == CandidateStrength::Strong <==> named || (manufacturer_data matches Some(data) && marked(
            data@,
        )),
{
    if named {
        return CandidateStrength::Strong;
    }
    if let Some(data) = manufacturer_data {
        if data.len() >= 3 && data[0] == 0xff && data[1] == 0xff && data[2] == 0x03 {
            assert(seq![0xffu8, 0xffu8, 0x03u8] =~= data@.subrange(0, 3));
            return CandidateStrength::Strong;
        }
        proof {
            if marked(data@) {
                let marker = seq![0xffu8, 0xffu8, 0x03u8];
                assert(marker == data@.subrange(0, 3));
                assert(marker[0] == data@[0]);
                assert(marker[1] == data@[1]);
                assert(marker[2] == data@[2]);
            }
        }
    }
    CandidateStrength::Weak
}

/// How long a peer without the service is not tried again, in milliseconds.
pub const SERVICE_MISS_TTL_MS: u64 = 300_000;

/// How many peers without the service are remembered.
pub const SERVICE_MISS_CAPACITY: usize = 256;

/// How long the cancellation of a stale link is left to complete, in milliseconds.
pub const STALE_CANCELLATION_MS: u64 = 30_000;

/// A peer that was connected and did not offer the service.
#[derive(Clone, Copy)]
pub struct ServiceMiss {
    pub peer_id: CoreBluetoothPeerId,
    pub at: u64,
}

/// The miss is that of the peer.
pub open spec fn miss_of(peer_id: CoreBluetoothPeerId) -> spec_fn(ServiceMiss) -> bool {
    |miss: ServiceMiss| miss.peer_id == peer_id
}

/// Less than `window` milliseconds have passed from `at` to `now`.
pub open spec fn recent(at: u64, now: u64, window: u64) -> bool {
    now - at < window
}

/// What a [`DiscoveryGuard`] remembers.
pub struct GuardModel {
    /// Peers without the service, the one met longest ago first.
    pub misses: Seq<ServiceMiss>,
    /// When the stale link of a peer was last cancelled.
    pub cancellations: Map<CoreBluetoothPeerId, u64>,
}

impl GuardModel {
    /// A guard that remembers nothing.
    pub open spec fn empty() -> Self {
        GuardModel { misses: Seq::empty(), cancellations: Map::empty() }
    }

    /// The memory of misses is bounded and holds each peer once.
    pub open spec fn wf(self) -> bool {
        &&& self.misses.len() <= SERVICE_MISS_CAPACITY
        &&& forall|i: int, j: int|
            0 <= i < j < self.misses.len() ==> (#[trigger] self.misses[i]).peer_id != (
            #[trigger] self.misses[j]).peer_id
    }

    /// Where the miss of the peer stands.
    pub open spec fn miss(self, peer_id: CoreBluetoothPeerId) -> Option<int> {
        search::first_where(self.misses, miss_of(peer_id))
    }

    /// A weak candidate of the peer is turned away.
    pub open spec fn suppressed(self, peer_id: CoreBluetoothPeerId, now: u64) -> bool {
        self.miss(peer_id) matches Some(i) && recent(self.misses[i].at, now, SERVICE_MISS_TTL_MS)
    }

    /// The guard after a weak candidate of the peer was judged: an expired miss is forgotten.
    pub open spec fn judged(self, peer_id: CoreBluetoothPeerId, now: u64) -> Self {
        if self.suppressed(peer_id, now) {
            self
        } else {
            GuardModel { misses: search::without(self.misses, self.miss(peer_id)), ..self }
        }
    }

    /// The guard after the peer was met without the service. A full memory forgets the peer met
    /// longest ago.
    pub open spec fn missed(self, peer_id: CoreBluetoothPeerId, now: u64) -> Self {
        let others = search::without(self.misses, self.miss(peer_id));
        let room = if others.len() >= SERVICE_MISS_CAPACITY {
            others.skip(1)
        } else {
            others
        };
        GuardModel { misses: room.push(ServiceMiss { peer_id, at: now }), ..self }
    }

    /// A cancellation of the peer's stale link is under way.
    pub open spec fn cancelling(self, peer_id: CoreBluetoothPeerId, now: u64) -> bool {
        self.cancellations.dom().contains(peer_id) && recent(
            self.cancellations[peer_id],
            now,
            STALE_CANCELLATION_MS,
        )
    }

    /// The guard after the peer's stale link was cancelled.
    pub open spec fn cancelled(self, peer_id: CoreBluetoothPeerId, now: u64) -> Self {
        GuardModel { cancellations: self.cancellations.insert(peer_id, now), ..self }
    }

    /// The guard after the peer was disconnected.
    pub open spec fn disconnected(self, peer_id: CoreBluetoothPeerId) -> Self {
        GuardModel { cancellations: self.cancellations.remove(peer_id), ..self }
    }

    /// The guard after it was asked for a cancellation: one that took too long is forgotten.
    pub open spec fn asked(self, peer_id: CoreBluetoothPeerId, now: u64) -> Self {
        if self.cancelling(peer_id, now) {
            self
        } else {
            self.disconnected(peer_id)
        }
    }

    proof fn lemma_without_keeps_wf(self, at: Option<int>)
        requires
            self.wf(),
            at matches Some(i) ==> 0 <= i < self.misses.len(),
        ensures
            (GuardModel { misses: search::without(self.misses, at), ..self }).wf(),
    {
        if let Some(k) = at {
            let rest = self.misses.remove(k);
            assert forall|i: int| 0 <= i < rest.len() implies (#[trigger] rest[i])
                == self.misses[if i < k {
                i
            } else {
                i + 1
            }] by {}
        }
    }

    /// Remembering a miss keeps the bound, and the peer is suppressed from then on until its time
    /// has passed.
    pub proof fn law_miss(self, peer_id: CoreBluetoothPeerId, now: u64, later: u64)
        requires
            self.wf(),
            now <= later,
        ensures
            self.missed(peer_id, now).wf(),
            self.missed(peer_id, now).suppressed(peer_id, later) <==> later - now
                < SERVICE_MISS_TTL_MS,
    {
        let p = miss_of(peer_id);
        search::lemma_first_where(self.misses, p);
        let others = search::without(self.misses, self.miss(peer_id));
        assert forall|j: int| 0 <= j < others.len() implies (#[trigger] others[j]).peer_id
            != peer_id by {
            match self.miss(peer_id) {
                Some(k) => {
                    let j0 = if j < k {
                        j
                    } else {
                        j + 1
                    };
                    assert(others[j] == self.misses[j0]);
                    assert(p(self.misses[k]));
                    if j0 < k {
                        assert(self.misses[j0].peer_id != self.misses[k].peer_id);
                    } else {
                        assert(self.misses[k].peer_id != self.misses[j0].peer_id);
                    }
                },
                None => {
                    assert(!p(self.misses[j]));
                },
            }
        }
        match self.miss(peer_id) {
            Some(k) => {
                assert(p(self.misses[k]));
                self.lemma_without_keeps_wf(Some(k));
            },
            None => {},
        }
        let next = self.missed(peer_id, now).misses;
        let room = next.drop_last();
        let shift: int = if others.len() >= SERVICE_MISS_CAPACITY {
            1
        } else {
            0
        };
        assert forall|j: int| 0 <= j < room.len() implies (#[trigger] next[j]) == others[j
            + shift] by {}
        search::lemma_first_where_is(next, p, next.len() - 1);
    }
}

impl GuardModel {
    /// A stale link is cancelled again only once the earlier cancellation had its time, and what
    /// is remembered of one peer says nothing of another.
    pub proof fn law_cancellation_is_not_repeated(
        self,
        peer_id: CoreBluetoothPeerId,
        other: CoreBluetoothPeerId,
        now: u64,
        later: u64,
    )
        requires
            now <= later,
        ensures
            self.cancelled(peer_id, now).cancelling(peer_id, later) <==> later - now
                < STALE_CANCELLATION_MS,
            !self.disconnected(peer_id).cancelling(peer_id, later),
            other != peer_id ==> self.cancelled(peer_id, now).cancelling(other, later)
                == self.cancelling(other, later),
            other != peer_id ==> self.disconnected(peer_id).cancelling(other, later)
                == self.cancelling(other, later),
    {
    }
}

/// Keeps discovery from retrying peers that do not offer the service, and from cancelling one
/// stale link again and again. Times are milliseconds of a clock that never runs backwards.
pub struct DiscoveryGuard {
    misses: VecDeque<ServiceMiss>,
    cancellations: PeerMap<u64>,
}

impl View for DiscoveryGuard {
    type V = GuardModel;

    closed spec fn view(&self) -> GuardModel {
        GuardModel { misses: self.misses@, cancellations: self.cancellations@ }
    }
}

impl DiscoveryGuard {
    /// The memory is bounded and holds each peer once.
    pub closed spec fn wf(&self) -> bool {
        self@.wf() && self.cancellations.wf()
    }

    /// A well-formed guard keeps its limits.
    pub proof fn lemma_wf(&self)
        requires
            self.wf(),
        ensures
            self@.wf(),
    {
    }

    /// A guard that remembers nothing.
    pub fn new() -> (r: Self)
        ensures
            r.wf(),
            r@ == GuardModel::empty(),
    {
        DiscoveryGuard { misses: VecDeque::new(), cancellations: PeerMap::new() }
    }

    fn miss_position(&self, peer_id: CoreBluetoothPeerId) -> (r: Option<usize>)
        ensures
            match r {
                Some(i) => self@.miss(peer_id) == Some(i as int) && i < self.misses@.len(),
                None => self@.miss(peer_id) is None,
            },
    {
        let test = |miss: &ServiceMiss| -> (b: bool)
            ensures
                b == (miss.peer_id == peer_id),
            { miss.peer_id == peer_id };
        position(&self.misses, test, Ghost(miss_of(peer_id)))
    }

    /// A candidate goes on to be adopted. Only a weak one of a peer that lately lacked the service
    /// does not.
    pub fn admit_candidate(
        &mut self,
        peer_id: CoreBluetoothPeerId,
        strength: CandidateStrength,
        now: u64,
    ) -> (r: bool)
        requires
            old(self).wf(),
        ensures
            final(self).wf(),
            r == (strength is Strong || !old(self)@.suppressed(peer_id, now)),
            final(self)@ == if strength is Strong {
                old(self)@
            } else {
                old(self)@.judged(peer_id, now)
            },
    {
        if strength == CandidateStrength::Strong {
            return true;
        }
        match self.miss_position(peer_id) {
            Some(i) => {
                if now < self.misses[i].at || now - self.misses[i].at < SERVICE_MISS_TTL_MS {
                    return false;
                }
                proof {
                    self@.lemma_without_keeps_wf(Some(i as int));
                }
                self.misses.remove(i);
                true
            },
            None => true,
        }
    }

    /// Remembers that the peer did not offer the service.
    pub fn record_service_miss(&mut self, peer_id: CoreBluetoothPeerId, now: u64)
        requires
            old(self).wf(),
        ensures
            final(self).wf(),
            final(self)@ == old(self)@.missed(peer_id, now),
    {
        proof {
            self@.law_miss(peer_id, now, now);
        }
        if let Some(i) = self.miss_position(peer_id) {
            self.misses.remove(i);
        }
        if self.misses.len() >= SERVICE_MISS_CAPACITY {
            let ghost others = self.misses@;
            self.misses.pop_front();
            assert(self.misses@ =~= others.skip(1));
        }
        self.misses.push_back(ServiceMiss { peer_id, at: now });
    }

    /// Remembers that the peer's stale link was cancelled.
    pub fn record_stale_cancellation(&mut self, peer_id: CoreBluetoothPeerId, now: u64)
        requires
            old(self).wf(),
        ensures
            final(self).wf(),
            final(self)@ == old(self)@.cancelled(peer_id, now),
    {
        self.cancellations.insert(peer_id, now);
    }

    /// Forgets that the peer's stale link was cancelled.
    pub fn clear_stale_cancellation(&mut self, peer_id: CoreBluetoothPeerId)
        requires
            old(self).wf(),
        ensures
            final(self).wf(),
            final(self)@ == old(self)@.disconnected(peer_id),
    {
        self.cancellations.remove(peer_id);
    }

    /// A cancellation of the peer's stale link is under way.
    pub fn cancellation_recent(&mut self, peer_id: CoreBluetoothPeerId, now: u64) -> (r: bool)
        requires
            old(self).wf(),
        ensures
            final(self).wf(),
            r == old(self)@.cancelling(peer_id, now),
            final(self)@ == old(self)@.asked(peer_id, now),
    {
        let at = match self.cancellations.get(peer_id) {
            Some(at) => *at,
            None => {
                assert(self@.cancellations =~= self@.cancellations.remove(peer_id));
                return false;
            },
        };
        if now < at || now - at < STALE_CANCELLATION_MS {
            return true;
        }
        self.cancellations.remove(peer_id);
        false
    }

    /// How many peers without the service are remembered.
    pub fn suppressed_len(&self) -> (r: usize)
        ensures
            r == self@.misses.len(),
    {
        self.misses.len()
    }
}

} // verus!
