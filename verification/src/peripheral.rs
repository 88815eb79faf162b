//! The peripheral role: inbound sessions and pending L2CAP channels.

use crate::gatt_write::FRAGMENT_HEADER_LEN;
use crate::ingress;
use crate::ingress::{BoundedQueue, FragmentQueue, GattInbox, Offer};
use crate::peer::{BleAddress, BleIdentity, CoreBluetoothPeerId, PeerProtocol};
use crate::peer_map::PeerMap;
use crate::pending;
use crate::pending::{L2capChannel, PendingL2cap, PendingModel};
use crate::radio::{central_peripheral_capacity, SIGHTING_INGRESS_PER_PEER};
use tokio::sync::mpsc;
use vstd::prelude::*;

verus! {

/// Sessions that may be in their handshake on top of the settled ones.
pub const HANDSHAKE_SLACK: usize = 4;

/// The number, or the largest one that can be held.
pub open spec fn saturated(n: int) -> int {
    if n <= usize::MAX {
        n
    } else {
        usize::MAX as int
    }
}

/// Inbound sessions that the peripheral role keeps.
pub fn peripheral_session_capacity(max_peers: usize) -> (r: usize)
    ensures
        r == saturated(max_peers * 2 + HANDSHAKE_SLACK),
{
    let doubled: usize = match max_peers.checked_mul(2) {
        Some(doubled) => doubled,
        None => usize::MAX,
    };
    doubled.saturating_add(HANDSHAKE_SLACK)
}

/// Peers with a pending L2CAP channel that the peripheral role keeps: one for each peripheral of
/// the central role and one for each inbound session.
pub fn pending_l2cap_capacity(max_peers: usize) -> (r: usize)
    ensures
        r == saturated(
            max_peers * SIGHTING_INGRESS_PER_PEER + (max_peers * 2 + HANDSHAKE_SLACK),
        ),
{
    central_peripheral_capacity(max_peers).saturating_add(peripheral_session_capacity(max_peers))
}

/// A further inbound session fits.
pub fn can_open_inbound(current_sessions: usize, capacity: usize) -> (r: bool)
    ensures
        r == (current_sessions < capacity),
{
    current_sessions < capacity
}

/// The exact peer has a session.
pub fn has_session_for_peer<V>(sessions: &PeerMap<V>, peer_id: CoreBluetoothPeerId) -> (r: bool)
    ensures
        r == sessions@.dom().contains(peer_id),
{
    sessions.contains_key(peer_id)
}

/// How an inbound L2CAP channel is answered.
#[derive(Clone, Copy, Debug, PartialEq, Eq, Structural)]
pub enum L2capDeliveryAdmission {
    /// The exact peer has a pending entry.
    Existing,
    /// The exact peer has an inbound session and gets a pending entry.
    Listener,
    /// Nobody here knows the exact peer.
    Unknown,
    /// The exact peer has an inbound session and no pending entry is left for it.
    Full,
}

/// How an inbound L2CAP channel of the exact peer is answered.
pub open spec fn delivery_admission<S, Q>(
    sessions: Map<CoreBluetoothPeerId, S>,
    pending: Map<CoreBluetoothPeerId, Q>,
    peer_id: CoreBluetoothPeerId,
    capacity: usize,
) -> L2capDeliveryAdmission {
    if pending.dom().contains(peer_id) {
        L2capDeliveryAdmission::Existing
    } else if !sessions.dom().contains(peer_id) {
        L2capDeliveryAdmission::Unknown
    } else if pending.dom().len() >= capacity {
        L2capDeliveryAdmission::Full
    } else {
        L2capDeliveryAdmission::Listener
    }
}

/// Answers an inbound L2CAP channel of the exact peer.
pub fn l2cap_delivery_admission<S, Q>(
    sessions: &PeerMap<S>,
    pending: &PeerMap<Q>,
    peer_id: CoreBluetoothPeerId,
    capacity: usize,
) -> (r: L2capDeliveryAdmission)
    requires
        pending.wf(),
    ensures
        r == delivery_admission(sessions@, pending@, peer_id, capacity),
{
    if pending.contains_key(peer_id) {
        L2capDeliveryAdmission::Existing
    } else if !sessions.contains_key(peer_id) {
        L2capDeliveryAdmission::Unknown
    } else if pending.len() >= capacity {
        L2capDeliveryAdmission::Full
    } else {
        L2capDeliveryAdmission::Listener
    }
}

/// Who shares a peer's synthetic address has no say in its admission: another peer's session
/// changes nothing, and another peer's pending entry only counts against the capacity.
pub proof fn law_admission_is_exact<S, Q>(
    sessions: Map<CoreBluetoothPeerId, S>,
    pending: Map<CoreBluetoothPeerId, Q>,
    peer_id: CoreBluetoothPeerId,
    other: CoreBluetoothPeerId,
    session: S,
    capacity: usize,
)
    requires
        other != peer_id,
    ensures
        delivery_admission(sessions.insert(other, session), pending, peer_id, capacity)
            == delivery_admission(sessions, pending, peer_id, capacity),
        delivery_admission(sessions.remove(other), pending, peer_id, capacity)
            == delivery_admission(sessions, pending, peer_id, capacity),
        !sessions.dom().contains(peer_id) && !pending.dom().contains(peer_id)
            ==> delivery_admission(sessions, pending, peer_id, capacity)
            == L2capDeliveryAdmission::Unknown,
{
}

/// The exact peer has a pending entry or can get one.
pub fn can_arm_l2cap<Q>(
    pending: &PeerMap<Q>,
    peer_id: CoreBluetoothPeerId,
    capacity: usize,
) -> (r: bool)
    requires
        pending.wf(),
    ensures
        r == (pending@.dom().contains(peer_id) || pending@.dom().len() < capacity),
{
    pending.contains_key(peer_id) || pending.len() < capacity
}

/// The peer stands at the address, where one is given.
pub open spec fn stands_at(peer_id: CoreBluetoothPeerId, address: Option<BleAddress>) -> bool {
    match address {
        Some(address) => peer_id.spec_address() == address,
        None => true,
    }
}

/// The sessions that stay are those elsewhere and those that are not closed.
pub open spec fn reaps_sessions<S, F: Fn(&S) -> bool>(
    before: Map<CoreBluetoothPeerId, S>,
    after: Map<CoreBluetoothPeerId, S>,
    address: Option<BleAddress>,
    is_closed: F,
) -> bool {
    &&& forall|peer_id: CoreBluetoothPeerId| #[trigger]
        after.dom().contains(peer_id) ==> before.dom().contains(peer_id) && after[peer_id]
            == before[peer_id] && (!stands_at(peer_id, address) || call_ensures(
            is_closed,
            (&before[peer_id],),
            false,
        ))
    &&& forall|peer_id: CoreBluetoothPeerId| #[trigger]
        before.dom().contains(peer_id) && !after.dom().contains(peer_id) ==> stands_at(
            peer_id,
            address,
        ) && call_ensures(is_closed, (&before[peer_id],), true)
}

/// Exactly the peers that lost their session have lost their entry.
pub open spec fn follows_sessions<S, Q>(
    sessions_before: Map<CoreBluetoothPeerId, S>,
    sessions_after: Map<CoreBluetoothPeerId, S>,
    before: Map<CoreBluetoothPeerId, Q>,
    after: Map<CoreBluetoothPeerId, Q>,
) -> bool {
    forall|peer_id: CoreBluetoothPeerId|
        #![trigger after.dom().contains(peer_id)]
        #![trigger before.dom().contains(peer_id)]
        {
            &&& after.dom().contains(peer_id) <==> before.dom().contains(peer_id) && (
            sessions_before.dom().contains(peer_id) ==> sessions_after.dom().contains(peer_id))
            &&& after.dom().contains(peer_id) ==> after[peer_id] == before[peer_id]
        }
}

/// Removes the closed sessions at the address, or everywhere where none is given, and what is
/// pending for their exact peers. Says how many were removed.
pub fn reap_closed_sessions<S, Q, F: Fn(&S) -> bool>(
    sessions: &mut PeerMap<S>,
    pending: &mut PeerMap<Q>,
    address: Option<BleAddress>,
    is_closed: F,
) -> (r: usize)
    requires
        old(sessions).wf(),
        old(pending).wf(),
        forall|session: &S| call_requires(is_closed, (session,)),
    ensures
        final(sessions).wf(),
        final(pending).wf(),
        reaps_sessions(old(sessions)@, final(sessions)@, address, is_closed),
        follows_sessions(old(sessions)@, final(sessions)@, old(pending)@, final(pending)@),
        r == old(sessions)@.dom().len() - final(sessions)@.dom().len(),
{
    let keys = sessions.keys();
    let before = sessions.len();
    let ghost s0 = sessions@;
    let ghost p0 = pending@;
    let mut i: usize = 0;
    while i < keys.len()
        invariant
            0 <= i <= keys@.len(),
            sessions.wf(),
            pending.wf(),
            s0 == old(sessions)@,
            p0 == old(pending)@,
            keys@.no_duplicates(),
            keys@.to_set() == s0.dom(),
            forall|session: &S| call_requires(is_closed, (session,)),
            forall|k: int|
                i <= k < keys@.len() ==> sessions@.dom().contains(#[trigger] keys@[k])
                    && sessions@[keys@[k]] == s0[keys@[k]],
            forall|k: int|
                0 <= k < i ==> if sessions@.dom().contains(#[trigger] keys@[k]) {
                    sessions@[keys@[k]] == s0[keys@[k]] && (!stands_at(keys@[k], address)
                        || call_ensures(is_closed, (&s0[keys@[k]],), false))
                } else {
                    stands_at(keys@[k], address) && call_ensures(is_closed, (&s0[keys@[k]],), true)
                },
            forall|peer_id: CoreBluetoothPeerId| #[trigger]
                sessions@.dom().contains(peer_id) ==> s0.dom().contains(peer_id),
            follows_sessions(s0, sessions@, p0, pending@),
        decreases keys@.len() - i,
    {
        let peer_id = keys[i];
        let matches = match address {
            Some(address) => peer_id.address() == address,
            None => true,
        };
        let closed = match sessions.get(peer_id) {
            Some(session) => matches && is_closed(session),
            None => false,
        };
        assert(s0.dom().contains(peer_id)) by {
            assert(keys@.contains(keys@[i as int]));
            assert(keys@.to_set().contains(peer_id));
        }
        if closed {
            sessions.remove(peer_id);
            pending.remove(peer_id);
        }
        i += 1;
    }
    proof {
        assert forall|peer_id: CoreBluetoothPeerId| #[trigger]
            s0.dom().contains(peer_id) implies exists|k: int|
            0 <= k < keys@.len() && keys@[k] == peer_id by {
            assert(keys@.to_set().contains(peer_id));
            let k = keys@.index_of(peer_id);
            assert(keys@[k] == peer_id);
        }
        assert forall|peer_id: CoreBluetoothPeerId| #[trigger]
            sessions@.dom().contains(peer_id) implies s0.dom().contains(peer_id)
            && sessions@[peer_id] == s0[peer_id] && (!stands_at(peer_id, address) || call_ensures(
            is_closed,
            (&s0[peer_id],),
            false,
        )) by {
            let k = choose|k: int| 0 <= k < keys@.len() && keys@[k] == peer_id;
            assert(keys@[k] == peer_id);
        }
        assert forall|peer_id: CoreBluetoothPeerId| #[trigger]
            s0.dom().contains(peer_id) && !sessions@.dom().contains(peer_id) implies stands_at(
            peer_id,
            address,
        ) && call_ensures(is_closed, (&s0[peer_id],), true) by {
            let k = choose|k: int| 0 <= k < keys@.len() && keys@[k] == peer_id;
            assert(keys@[k] == peer_id);
        }
        old(sessions).lemma_peers();
        assert(sessions@.dom().subset_of(s0.dom()));
        vstd::set_lib::lemma_len_subset(sessions@.dom(), s0.dom());
    }
    before - sessions.len()
}

/// What is held for the peer, where anything is.
pub open spec fn held<Q>(map: Map<CoreBluetoothPeerId, Q>, peer_id: CoreBluetoothPeerId) -> Option<
    Q,
> {
    if map.dom().contains(peer_id) {
        Some(map[peer_id])
    } else {
        None
    }
}

/// Every entry was settled, and stays where something is left of it.
pub open spec fn settles<Ch: L2capChannel>(
    before: Map<CoreBluetoothPeerId, PendingL2cap<Ch>>,
    after: Map<CoreBluetoothPeerId, PendingL2cap<Ch>>,
) -> bool {
    &&& forall|peer_id: CoreBluetoothPeerId| #[trigger]
        after.dom().contains(peer_id) ==> before.dom().contains(peer_id)
    &&& forall|peer_id: CoreBluetoothPeerId| #[trigger]
        before.dom().contains(peer_id) ==> pending::settles_to(
            before[peer_id],
            held(after, peer_id),
        )
}

/// Drops whoever gave up and every channel that is closed, and every entry of which nothing is
/// left. Says how many entries are gone.
pub fn reap_stale_pending_l2cap<Ch: L2capChannel>(pending: &mut PeerMap<PendingL2cap<Ch>>) -> (r:
    usize)
    requires
        old(pending).wf(),
    ensures
        final(pending).wf(),
        settles(old(pending)@, final(pending)@),
        r == old(pending)@.dom().len() - final(pending)@.dom().len(),
{
    let keys = pending.keys();
    let before = pending.len();
    let ghost p0 = pending@;
    let mut i: usize = 0;
    while i < keys.len()
        invariant
            0 <= i <= keys@.len(),
            pending.wf(),
            p0 == old(pending)@,
            keys@.no_duplicates(),
            keys@.to_set() == p0.dom(),
            forall|k: int|
                i <= k < keys@.len() ==> pending@.dom().contains(#[trigger] keys@[k])
                    && pending@[keys@[k]] == p0[keys@[k]],
            forall|k: int|
                0 <= k < i ==> pending::settles_to(
                    p0[#[trigger] keys@[k]],
                    held(pending@, keys@[k]),
                ),
            forall|peer_id: CoreBluetoothPeerId| #[trigger]
                pending@.dom().contains(peer_id) ==> p0.dom().contains(peer_id),
        decreases keys@.len() - i,
    {
        let peer_id = keys[i];
        let ghost was = pending@;
        assert(keys@[i as int] == peer_id);
        assert(p0.dom().contains(peer_id));
        if let Some(entry) = pending.remove(peer_id) {
            if let Some(rest) = entry.settle() {
                pending.insert(peer_id, rest);
            }
        }
        proof {
            assert forall|k: int| 0 <= k < keys@.len() && k != i implies held(
                pending@,
                #[trigger] keys@[k],
            ) == held(was, keys@[k]) by {}
        }
        i += 1;
    }
    proof {
        assert forall|peer_id: CoreBluetoothPeerId| #[trigger]
            p0.dom().contains(peer_id) implies pending::settles_to(
            p0[peer_id],
            held(pending@, peer_id),
        ) by {
            assert(keys@.to_set().contains(peer_id));
            let k = keys@.index_of(peer_id);
            assert(keys@[k] == peer_id);
        }
        old(pending).lemma_peers();
        assert(pending@.dom().subset_of(p0.dom()));
        vstd::set_lib::lemma_len_subset(pending@.dom(), p0.dom());
    }
    before - pending.len()
}

/// The profile that an inbound peer speaks.
#[derive(Clone, Copy, Debug)]
pub enum InboundProfile {
    Native,
    Columba(BleIdentity),
}

impl InboundProfile {
    /// The protocol of the profile.
    pub open spec fn spec_protocol(self) -> PeerProtocol {
        match self {
            InboundProfile::Native => PeerProtocol::Native,
            InboundProfile::Columba(_) => PeerProtocol::Columba,
        }
    }

    /// The protocol of the profile.
    pub fn protocol(&self) -> (r: PeerProtocol)
        ensures
            r == self.spec_protocol(),
    {
        match self {
            InboundProfile::Native => PeerProtocol::Native,
            InboundProfile::Columba(_) => PeerProtocol::Columba,
        }
    }

    /// The identity that the peer told with its profile.
    pub open spec fn spec_identity(self) -> Option<BleIdentity> {
        match self {
            InboundProfile::Native => None,
            InboundProfile::Columba(identity) => Some(identity),
        }
    }

    /// The identity that the peer told with its profile.
    pub fn peer_identity(&self) -> (r: Option<BleIdentity>)
        ensures
            r == self.spec_identity(),
    {
        match self {
            InboundProfile::Native => None,
            InboundProfile::Columba(identity) => Some(*identity),
        }
    }
}

/// What the peer takes, but at least one byte behind the header and no more than the interface
/// carries.
pub open spec fn clamped_mtu(
    maximum_update: usize,
    fragment_header_len: usize,
    hw_mtu: usize,
) -> int {
    if maximum_update <= fragment_header_len {
        fragment_header_len + 1
    } else if maximum_update > hw_mtu {
        hw_mtu as int
    } else {
        maximum_update as int
    }
}

/// The largest fragment that a notification carries to a peer.
pub fn gatt_mtu(maximum_update: usize, fragment_header_len: usize, hw_mtu: usize) -> (r: usize)
    requires
        fragment_header_len < hw_mtu,
    ensures
        r == clamped_mtu(maximum_update, fragment_header_len, hw_mtu),
        fragment_header_len < r <= hw_mtu,
{
    if maximum_update <= fragment_header_len {
        fragment_header_len + 1
    } else if maximum_update > hw_mtu {
        hw_mtu
    } else {
        maximum_update
    }
}

/// One inbound session. `R` is the remote central, `C` a control message and `D` the inbox of its
/// fragments.
#[verifier::reject_recursive_types(C)]
pub struct PeripheralPeerSession<R, C, D> {
    pub central: R,
    pub protocol: PeerProtocol,
    pub control_tx: BoundedQueue<C>,
    pub data_tx: FragmentQueue<D>,
}

impl<R, C, D> PeripheralPeerSession<R, C, D> {
    /// The session is new: it speaks the protocol of the profile, and nothing was offered to its
    /// owner.
    pub open spec fn is_new(
        self,
        profile: InboundProfile,
        central: R,
        control_tx: mpsc::Sender<C>,
        data_tx: D,
    ) -> bool {
        &&& self.central == central
        &&& self.protocol == profile.spec_protocol()
        &&& self.control_tx.sender() == control_tx && self.control_tx.offers().len() == 0
        &&& self.data_tx.inbox() == data_tx && self.data_tx.offers().len() == 0
    }

    /// A new session with the remote central.
    pub fn new(
        profile: InboundProfile,
        central: R,
        control_tx: mpsc::Sender<C>,
        data_tx: D,
    ) -> (r: Self)
        ensures
            r.is_new(profile, central, control_tx, data_tx),
    {
        PeripheralPeerSession {
            central,
            protocol: profile.protocol(),
            control_tx: BoundedQueue::new(control_tx),
            data_tx: FragmentQueue::new(data_tx),
        }
    }

    /// This is the earlier session, to whose owner more was offered since.
    pub open spec fn passes_on(
        self,
        earlier: Self,
        controls: Seq<Offer<C>>,
        fragments: Seq<Offer<Seq<u8>>>,
    ) -> bool {
        &&& self == (PeripheralPeerSession {
            control_tx: self.control_tx,
            data_tx: self.data_tx,
            ..earlier
        })
        &&& self.control_tx.extends(earlier.control_tx, controls)
        &&& self.data_tx.extends(earlier.data_tx, fragments)
    }
}

impl<R, C, D: GattInbox> PeripheralPeerSession<R, C, D> {
    /// The owner of the session is gone. The control receiver is handshake-only and closes when a
    /// link settles; the data receiver is kept for as long as this role lives.
    pub fn data_receiver_closed(&self) -> (r: bool)
        ensures
            ingress::reports_closed(self.data_tx.inbox(), r),
    {
        self.data_tx.is_closed()
    }
}

/// What the peripheral role holds.
#[verifier::reject_recursive_types(C)]
#[verifier::reject_recursive_types(Ch)]
pub struct PeripheralModel<R, C, D, Ch> {
    pub session_capacity: usize,
    pub pending_capacity: usize,
    pub channel_capacity: usize,
    pub hw_mtu: usize,
    pub sessions: Map<CoreBluetoothPeerId, PeripheralPeerSession<R, C, D>>,
    pub pending: Map<CoreBluetoothPeerId, PendingL2cap<Ch>>,
    pub service_requested: bool,
    pub l2cap_requested: bool,
}

impl<R, C, D, Ch> PeripheralModel<R, C, D, Ch> {
    /// Both capacities are kept, every pending entry keeps its bounds and holds something, and the
    /// interface carries more than the header of a fragment.
    pub open spec fn wf(self) -> bool {
        &&& FRAGMENT_HEADER_LEN < self.hw_mtu
        &&& self.sessions.dom().finite()
        &&& self.pending.dom().finite()
        &&& self.sessions.dom().len() <= self.session_capacity
        &&& self.pending.dom().len() <= self.pending_capacity
        &&& forall|peer_id: CoreBluetoothPeerId| #[trigger]
            self.pending.dom().contains(peer_id) ==> self.entry_wf(self.pending[peer_id])
    }

    /// The pending entry keeps its bounds and holds something.
    pub open spec fn entry_wf(self, entry: PendingL2cap<Ch>) -> bool {
        entry.wf() && !entry@.is_empty() && entry@.channel_capacity == self.channel_capacity
    }

    /// What is pending once `sessions` are the ones that are left.
    pub open spec fn pending_with(
        self,
        sessions: Map<CoreBluetoothPeerId, PeripheralPeerSession<R, C, D>>,
    ) -> Map<CoreBluetoothPeerId, PendingL2cap<Ch>> {
        Map::new(
            |peer_id: CoreBluetoothPeerId|
                self.pending.dom().contains(peer_id) && (self.sessions.dom().contains(peer_id)
                    ==> sessions.dom().contains(peer_id)),
            |peer_id: CoreBluetoothPeerId| self.pending[peer_id],
        )
    }

    /// The peripheral role without the exact peer.
    pub open spec fn cleared(self, peer_id: CoreBluetoothPeerId) -> Self {
        PeripheralModel {
            sessions: self.sessions.remove(peer_id),
            pending: self.pending.remove(peer_id),
            ..self
        }
    }

    /// The peripheral role with the radio off: nothing is held, and what was published stays so.
    pub open spec fn radio_off(self) -> Self {
        PeripheralModel { sessions: Map::empty(), pending: Map::empty(), ..self }
    }

    /// The peripheral role with something else, or nothing, pending for the peer.
    pub open spec fn with_pending(self, peer_id: CoreBluetoothPeerId, entry: Option<PendingL2cap<Ch>>) -> Self {
        PeripheralModel {
            pending: match entry {
                Some(entry) => self.pending.insert(peer_id, entry),
                None => self.pending.remove(peer_id),
            },
            ..self
        }
    }

    /// The peripheral role with the session for the peer.
    pub open spec fn with_session(
        self,
        peer_id: CoreBluetoothPeerId,
        session: PeripheralPeerSession<R, C, D>,
    ) -> Self {
        PeripheralModel { sessions: self.sessions.insert(peer_id, session), ..self }
    }

    /// Reaping at the address, or everywhere, leads to `after`: the closed sessions there are gone
    /// with what was pending for their exact peers, and the rest that is pending was settled.
    pub open spec fn reaps(
        self,
        after: Self,
        address: Option<BleAddress>,
    ) -> bool where D: GattInbox, Ch: L2capChannel {
        &&& after == (PeripheralModel {
            sessions: after.sessions,
            pending: after.pending,
            ..self
        })
        &&& forall|peer_id: CoreBluetoothPeerId| #[trigger]
            after.sessions.dom().contains(peer_id) ==> self.sessions.dom().contains(peer_id)
                && after.sessions[peer_id] == self.sessions[peer_id] && (!stands_at(
                peer_id,
                address,
            ) || ingress::reports_closed(self.sessions[peer_id].data_tx.inbox(), false))
        &&& forall|peer_id: CoreBluetoothPeerId| #[trigger]
            self.sessions.dom().contains(peer_id) && !after.sessions.dom().contains(peer_id)
                ==> stands_at(peer_id, address) && ingress::reports_closed(
                self.sessions[peer_id].data_tx.inbox(),
                true,
            )
        &&& settles(self.pending_with(after.sessions), after.pending)
    }

    /// What an entry that keeps its bounds is settled to does so too.
    pub proof fn lemma_settled_wf(
        self,
        entry: PendingL2cap<Ch>,
        after: Option<PendingL2cap<Ch>>,
    ) where Ch: L2capChannel
        requires
            self.entry_wf(entry),
            pending::settles_to(entry, after),
        ensures
            after matches Some(after) ==> self.entry_wf(after),
    {
        let reaped = choose|reaped: PendingModel<Ch>| #[trigger]
            entry@.reaps(reaped) && pending::leaves(reaped, after);
        entry@.law_bounds_are_kept(reaped);
    }

    /// A peer at another address keeps its session, whatever is reaped at this one, and so does
    /// every peer whose session is not closed.
    pub proof fn law_reaping_is_scoped(
        self,
        after: Self,
        address: Option<BleAddress>,
        peer_id: CoreBluetoothPeerId,
    ) where D: GattInbox, Ch: L2capChannel
        requires
            self.reaps(after, address),
            self.sessions.dom().contains(peer_id),
            !stands_at(peer_id, address) || !ingress::reports_closed(
                self.sessions[peer_id].data_tx.inbox(),
                true,
            ),
        ensures
            after.sessions.dom().contains(peer_id),
            after.sessions[peer_id] == self.sessions[peer_id],
            self.pending.dom().contains(peer_id) ==> pending::settles_to(
                self.pending[peer_id],
                held(after.pending, peer_id),
            ),
    {
        if self.pending.dom().contains(peer_id) {
            assert(self.pending_with(after.sessions).dom().contains(peer_id));
        }
    }
}

/// The peripheral role, confined to CoreBluetooth's serial queue. `Ch` is an L2CAP channel, of which
/// `channel_capacity` are kept for one peer at most, and `hw_mtu` are the bytes that the interface
/// carries at once.
#[verifier::reject_recursive_types(C)]
#[verifier::reject_recursive_types(Ch)]
pub struct PeripheralState<R, C, D, Ch> {
    pub session_capacity: usize,
    pub pending_capacity: usize,
    pub channel_capacity: usize,
    pub hw_mtu: usize,
    pub sessions: PeerMap<PeripheralPeerSession<R, C, D>>,
    pub pending: PeerMap<PendingL2cap<Ch>>,
    pub service_requested: bool,
    pub l2cap_requested: bool,
}

impl<R, C, D, Ch> View for PeripheralState<R, C, D, Ch> {
    type V = PeripheralModel<R, C, D, Ch>;

    open spec fn view(&self) -> PeripheralModel<R, C, D, Ch> {
        PeripheralModel {
            session_capacity: self.session_capacity,
            pending_capacity: self.pending_capacity,
            channel_capacity: self.channel_capacity,
            hw_mtu: self.hw_mtu,
            sessions: self.sessions@,
            pending: self.pending@,
            service_requested: self.service_requested,
            l2cap_requested: self.l2cap_requested,
        }
    }
}

/// What startup asks of the peripheral manager.
#[derive(Clone, Copy, Debug, PartialEq, Eq, Structural)]
pub struct PublicationRequest {
    pub add_service: bool,
    pub publish_l2cap: bool,
}

impl<R, C, D, Ch> PeripheralState<R, C, D, Ch> {
    /// Both capacities are kept and the maps are well formed.
    pub open spec fn wf(&self) -> bool {
        self@.wf() && self.sessions.wf() && self.pending.wf()
    }

    /// A peripheral role with nothing held or published.
    pub fn new(max_peers: usize, channel_capacity: usize, hw_mtu: usize) -> (r: Self)
        requires
            FRAGMENT_HEADER_LEN < hw_mtu,
        ensures
            r.wf(),
            r@.session_capacity == saturated(max_peers * 2 + HANDSHAKE_SLACK),
            r@.pending_capacity == saturated(
                max_peers * SIGHTING_INGRESS_PER_PEER + (max_peers * 2 + HANDSHAKE_SLACK),
            ),
            r@.channel_capacity == channel_capacity,
            r@.hw_mtu == hw_mtu,
            r@.sessions == Map::<CoreBluetoothPeerId, PeripheralPeerSession<R, C, D>>::empty(),
            r@.pending == Map::<CoreBluetoothPeerId, PendingL2cap<Ch>>::empty(),
            !r@.service_requested && !r@.l2cap_requested,
    {
        PeripheralState {
            session_capacity: peripheral_session_capacity(max_peers),
            pending_capacity: pending_l2cap_capacity(max_peers),
            channel_capacity,
            hw_mtu,
            sessions: PeerMap::new(),
            pending: PeerMap::new(),
            service_requested: false,
            l2cap_requested: false,
        }
    }

    /// The peripheral manager reports its state. Once powered, what was not asked for before is
    /// asked for now.
    pub fn did_update_state(&mut self, powered_on: bool) -> (r: PublicationRequest)
        requires
            old(self).wf(),
        ensures
            final(self).wf(),
            r.add_service == (powered_on && !old(self)@.service_requested),
            r.publish_l2cap == (powered_on && !old(self)@.l2cap_requested),
            final(self)@ == (PeripheralModel {
                service_requested: old(self)@.service_requested || powered_on,
                l2cap_requested: old(self)@.l2cap_requested || powered_on,
                ..old(self)@
            }),
    {
        if !powered_on {
            return PublicationRequest { add_service: false, publish_l2cap: false };
        }
        let add_service = !self.service_requested;
        let publish_l2cap = !self.l2cap_requested;
        self.service_requested = true;
        self.l2cap_requested = true;
        PublicationRequest { add_service, publish_l2cap }
    }

    /// CoreBluetooth restored the published service, so it is not added again.
    pub fn service_restored(&mut self)
        requires
            old(self).wf(),
        ensures
            final(self).wf(),
            final(self)@ == (PeripheralModel { service_requested: true, ..old(self)@ }),
    {
        self.service_requested = true;
    }

    /// Forgets the exact peer.
    pub fn clear_peer(&mut self, peer_id: CoreBluetoothPeerId)
        requires
            old(self).wf(),
        ensures
            final(self).wf(),
            final(self)@ == old(self)@.cleared(peer_id),
    {
        self.sessions.remove(peer_id);
        self.pending.remove(peer_id);
    }

    /// Switches the logical radio. What was published stays available; disabling releases every
    /// session and everything that is pending.
    pub fn set_radio_enabled(&mut self, enabled: bool)
        requires
            old(self).wf(),
        ensures
            final(self).wf(),
            final(self)@ == if enabled {
                old(self)@
            } else {
                old(self)@.radio_off()
            },
    {
        if enabled {
            return ;
        }
        self.sessions.clear();
        self.pending.clear();
    }

    /// Removes the closed sessions at the address, or everywhere, and everything that is pending
    /// and closed. A synthetic address never stands for an exact peer in what is pending.
    pub fn reap(&mut self, address: Option<BleAddress>) where D: GattInbox, Ch: L2capChannel
        requires
            old(self).wf(),
        ensures
            final(self).wf(),
            old(self)@.reaps(final(self)@, address),
    {
        let is_closed = |session: &PeripheralPeerSession<R, C, D>| -> (b: bool)
            ensures
                ingress::reports_closed(session.data_tx.inbox(), b),
            { session.data_receiver_closed() };
        let ghost before = self@;
        reap_closed_sessions(&mut self.sessions, &mut self.pending, address, is_closed);
        let ghost mid = self.pending@;
        proof {
            assert(mid =~= before.pending_with(self.sessions@));
            self.sessions.lemma_peers();
        }
        reap_stale_pending_l2cap(&mut self.pending);
        proof {
            self.pending.lemma_peers();
            assert(self.sessions@.dom().subset_of(before.sessions.dom()));
            vstd::set_lib::lemma_len_subset(self.sessions@.dom(), before.sessions.dom());
            assert(self.pending@.dom().subset_of(before.pending.dom())) by {
                assert forall|peer_id: CoreBluetoothPeerId| #[trigger]
                    self.pending@.dom().contains(peer_id) implies before.pending.dom().contains(
                    peer_id,
                ) by {
                    assert(mid.dom().contains(peer_id));
                }
            }
            vstd::set_lib::lemma_len_subset(self.pending@.dom(), before.pending.dom());
            assert forall|peer_id: CoreBluetoothPeerId| #[trigger]
                self.pending@.dom().contains(peer_id) implies before.entry_wf(
                self.pending@[peer_id],
            ) by {
                assert(mid.dom().contains(peer_id));
                before.lemma_settled_wf(mid[peer_id], held(self.pending@, peer_id));
            }
        }
    }

    /// The exact peer has an inbound session, while the radio is on.
    pub fn has_inbound_session(
        &mut self,
        radio_enabled: bool,
        peer_id: CoreBluetoothPeerId,
    ) -> (r: bool) where D: GattInbox, Ch: L2capChannel
        requires
            old(self).wf(),
        ensures
            final(self).wf(),
            !radio_enabled ==> !r && final(self)@ == old(self)@,
            radio_enabled ==> {
                &&& old(self)@.reaps(final(self)@, None)
                &&& r == final(self)@.sessions.dom().contains(peer_id)
            },
    {
        if !radio_enabled {
            return false;
        }
        self.reap(None);
        has_session_for_peer(&self.sessions, peer_id)
    }
}

} // verus!
