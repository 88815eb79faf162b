//! What each CoreBluetooth callback of the peripheral role makes of its state.

use crate::gatt_write::FRAGMENT_HEADER_LEN;
use crate::ingress;
use crate::ingress::{BoundedIngress, BoundedQueue, GattInbox, Offer};
use crate::peer::{BleAddress, BleIdentity, CoreBluetoothPeerId, PeerProtocol};
use crate::pending;
use crate::pending::{L2capChannel, PendingL2cap, PendingModel};
use crate::peripheral;
use crate::peripheral::{
    can_arm_l2cap, can_open_inbound, gatt_mtu, l2cap_delivery_admission, InboundProfile,
    L2capDeliveryAdmission, PeripheralModel, PeripheralPeerSession, PeripheralState,
};
use crate::profile::CharacteristicRole;
use tokio::sync::{mpsc, oneshot};
use vstd::prelude::*;

verus! {

/// The two ends of a new inbound link: what its session needs, and in `ends` what the host gets.
#[verifier::reject_recursive_types(C)]
pub struct OpenedLink<R, C, D, E> {
    pub central: R,
    /// The most bytes that the central takes in one notification.
    pub maximum_update: usize,
    pub control_tx: mpsc::Sender<C>,
    pub data_tx: D,
    pub ends: E,
}

/// The link to a peer that dialed this host.
pub struct InboundLink<E> {
    pub peer_protocol: PeerProtocol,
    pub peer_identity: Option<BleIdentity>,
    pub peer_id: CoreBluetoothPeerId,
    pub address: BleAddress,
    /// The most bytes of one notification.
    pub gatt_mtu: usize,
    pub ends: E,
}

impl<E> InboundLink<E> {
    /// The link leads to the exact peer, at its address, and bears the protocol and the identity of
    /// the profile.
    pub open spec fn leads_to(self, peer_id: CoreBluetoothPeerId, profile: InboundProfile) -> bool {
        &&& self.peer_protocol == profile.spec_protocol()
        &&& self.peer_identity == profile.spec_identity()
        &&& self.peer_id == peer_id
        &&& self.address == peer_id.spec_address()
    }
}

impl<R, C, D, Ch> PeripheralModel<R, C, D, Ch> {
    /// This is the link to the peer, made of what was opened for it.
    pub open spec fn is_link<E>(
        self,
        link: InboundLink<E>,
        peer_id: CoreBluetoothPeerId,
        profile: InboundProfile,
        opened: OpenedLink<R, C, D, E>,
    ) -> bool {
        &&& link.leads_to(peer_id, profile)
        &&& link.gatt_mtu == peripheral::clamped_mtu(
            opened.maximum_update,
            FRAGMENT_HEADER_LEN,
            self.hw_mtu,
        )
        &&& link.ends == opened.ends
    }
}

impl<R, C, D: GattInbox, Ch> PeripheralModel<R, C, D, Ch> {
    /// Opening an inbound session from what is left after reaping leads to `after`, and takes what
    /// was offered to the host from `before` to `inbound`. It is turned down where there is no room,
    /// and then nothing is offered. Otherwise the link is offered once, and the session is taken
    /// back where nobody takes the link.
    pub open spec fn opens<E, O: FnOnce() -> OpenedLink<R, C, D, E>>(
        self,
        after: Self,
        peer_id: CoreBluetoothPeerId,
        profile: InboundProfile,
        before: BoundedQueue<InboundLink<E>>,
        inbound: BoundedQueue<InboundLink<E>>,
        open: O,
        accepted: bool,
    ) -> bool {
        if self.sessions.dom().len() < self.session_capacity {
            exists|
                opened: OpenedLink<R, C, D, E>,
                session: PeripheralPeerSession<R, C, D>,
                link: InboundLink<E>,
                outcome: BoundedIngress<InboundLink<E>>,
            |
                {
                    &&& #[trigger] call_ensures(open, (), opened)
                    &&& #[trigger] session.is_new(
                        profile,
                        opened.central,
                        opened.control_tx,
                        opened.data_tx,
                    )
                    &&& self.is_link(link, peer_id, profile, opened)
                    &&& #[trigger] ingress::offered(before.sender(), link, outcome)
                    &&& accepted == (outcome is Accepted)
                    &&& inbound.extends(before, seq![Offer { value: link, taken: accepted }])
                    &&& after == if accepted {
                        self.with_session(peer_id, session)
                    } else {
                        self.with_session(peer_id, session).cleared(peer_id)
                    }
                }
        } else {
            !accepted && after == self && inbound == before
        }
    }

    /// A peer without a session gets one exactly where the host gets its link: then the host gets
    /// that one link, which leads to the exact peer, and otherwise it gets none. No other peer is
    /// touched, and nothing stays pending for a peer whose link nobody took.
    pub proof fn law_links_and_sessions_go_together<E, O: FnOnce() -> OpenedLink<R, C, D, E>>(
        self,
        after: Self,
        peer_id: CoreBluetoothPeerId,
        profile: InboundProfile,
        before: BoundedQueue<InboundLink<E>>,
        inbound: BoundedQueue<InboundLink<E>>,
        open: O,
        accepted: bool,
    )
        requires
            self.opens(after, peer_id, profile, before, inbound, open, accepted),
            !self.sessions.dom().contains(peer_id),
        ensures
            accepted ==> self.sessions.dom().len() < self.session_capacity,
            after.sessions.dom().contains(peer_id) <==> accepted,
            accepted ==> after.sessions[peer_id].protocol == profile.spec_protocol(),
            accepted ==> exists|link: InboundLink<E>|
                {
                    &&& #[trigger] link.leads_to(peer_id, profile)
                    &&& ingress::taken_values(inbound.offers()) == ingress::taken_values(
                        before.offers(),
                    ).push(link)
                },
            !accepted ==> ingress::taken_values(inbound.offers()) == ingress::taken_values(
                before.offers(),
            ),
            after.sessions.remove(peer_id) == self.sessions,
            after.pending == if !accepted && self.sessions.dom().len() < self.session_capacity {
                self.pending.remove(peer_id)
            } else {
                self.pending
            },
    {
        if self.sessions.dom().len() < self.session_capacity {
            let (opened, session, link, outcome) = choose|
                opened: OpenedLink<R, C, D, E>,
                session: PeripheralPeerSession<R, C, D>,
                link: InboundLink<E>,
                outcome: BoundedIngress<InboundLink<E>>,
            |
                {
                    &&& #[trigger] call_ensures(open, (), opened)
                    &&& #[trigger] session.is_new(
                        profile,
                        opened.central,
                        opened.control_tx,
                        opened.data_tx,
                    )
                    &&& self.is_link(link, peer_id, profile, opened)
                    &&& #[trigger] ingress::offered(before.sender(), link, outcome)
                    &&& accepted == (outcome is Accepted)
                    &&& inbound.extends(before, seq![Offer { value: link, taken: accepted }])
                    &&& after == if accepted {
                        self.with_session(peer_id, session)
                    } else {
                        self.with_session(peer_id, session).cleared(peer_id)
                    }
                };
            let offer = Offer { value: link, taken: accepted };
            assert(inbound.offers() == before.offers() + seq![offer]);
            assert(inbound.offers().drop_last() =~= before.offers());
            assert(inbound.offers().last() == offer);
            assert(link.leads_to(peer_id, profile));
            assert(after.sessions.remove(peer_id) =~= self.sessions);
        } else {
            assert(after.sessions.remove(peer_id) =~= self.sessions);
        }
    }
}

impl<R, C, D: GattInbox, Ch: L2capChannel> PeripheralModel<R, C, D, Ch> {
    /// Opening an inbound session leads to `after`. With the radio off nothing happens, and nothing
    /// is offered to the host.
    pub open spec fn tries_to_open<E, O: FnOnce() -> OpenedLink<R, C, D, E>>(
        self,
        after: Self,
        radio_enabled: bool,
        peer_id: CoreBluetoothPeerId,
        profile: InboundProfile,
        before: BoundedQueue<InboundLink<E>>,
        inbound: BoundedQueue<InboundLink<E>>,
        open: O,
        accepted: bool,
    ) -> bool {
        if radio_enabled {
            exists|reaped: Self| #[trigger]
                self.reaps(reaped, None) && reaped.opens(
                    after,
                    peer_id,
                    profile,
                    before,
                    inbound,
                    open,
                    accepted,
                )
        } else {
            !accepted && after == self && inbound == before
        }
    }
}

impl<R, C, D: GattInbox, Ch: L2capChannel> PeripheralState<R, C, D, Ch> {
    /// The link of a new session was offered to the host. A session whose link nobody took is
    /// forgotten by its exact peer, so that no peer that shares its address is touched. Says
    /// whether the session stays.
    pub fn settle_inbound<L>(&mut self, peer_id: CoreBluetoothPeerId, offered: BoundedIngress<L>) -> (r:
        bool)
        requires
            old(self).wf(),
        ensures
            final(self).wf(),
            r == (offered is Accepted),
            final(self)@ == if r {
                old(self)@
            } else {
                old(self)@.cleared(peer_id)
            },
    {
        match offered {
            BoundedIngress::Accepted => true,
            _ => {
                self.clear_peer(peer_id);
                false
            },
        }
    }

    /// Opens an inbound session for the peer and offers its link to the host. `open` makes the two
    /// ends of the link. Says whether the session stays.
    pub fn open_inbound<E, O: FnOnce() -> OpenedLink<R, C, D, E>>(
        &mut self,
        radio_enabled: bool,
        peer_id: CoreBluetoothPeerId,
        profile: InboundProfile,
        inbound: &mut BoundedQueue<InboundLink<E>>,
        open: O,
    ) -> (r: bool)
        requires
            old(self).wf(),
            call_requires(open, ()),
        ensures
            final(self).wf(),
            old(self)@.tries_to_open(
                final(self)@,
                radio_enabled,
                peer_id,
                profile,
                *old(inbound),
                *final(inbound),
                open,
                r,
            ),
    {
        if !radio_enabled {
            return false;
        }
        let ghost before = *inbound;
        self.reap(None);
        let ghost reaped = self@;
        if !can_open_inbound(self.sessions.len(), self.session_capacity) {
            assert(reaped.opens(self@, peer_id, profile, before, *inbound, open, false));
            return false;
        }
        let opened = open();
        let ghost made = opened;
        let session = PeripheralPeerSession::new(
            profile,
            opened.central,
            opened.control_tx,
            opened.data_tx,
        );
        let ghost new_session = session;
        self.sessions.insert(peer_id, session);
        assert(self@ == reaped.with_session(peer_id, new_session));
        let link = InboundLink {
            peer_protocol: profile.protocol(),
            peer_identity: profile.peer_identity(),
            peer_id,
            address: peer_id.address(),
            gatt_mtu: gatt_mtu(opened.maximum_update, FRAGMENT_HEADER_LEN, self.hw_mtu),
            ends: opened.ends,
        };
        let ghost new_link = link;
        let outcome = inbound.offer(link);
        let ghost shown = outcome;
        let stays = self.settle_inbound(peer_id, outcome);
        proof {
            assert(call_ensures(open, (), made));
            assert(new_session.is_new(profile, made.central, made.control_tx, made.data_tx));
            assert(ingress::offered(before.sender(), new_link, shown));
            assert(reaped.is_link(new_link, peer_id, profile, made));
            assert(reaped.opens(self@, peer_id, profile, before, *inbound, open, stays));
        }
        stays
    }
}

/// How a write request is answered.
#[derive(Clone, Copy, Debug, PartialEq, Eq, Structural)]
pub enum AttAnswer {
    Success,
    InsufficientResources,
}

impl<R, C, D: GattInbox, Ch> PeripheralModel<R, C, D, Ch> {
    /// The peer has a session that speaks the protocol.
    pub open spec fn speaks(self, peer_id: CoreBluetoothPeerId, protocol: PeerProtocol) -> bool {
        self.sessions.dom().contains(peer_id) && self.sessions[peer_id].protocol == protocol
    }

    /// The fragment goes to the peer's session where it speaks the protocol, and is dropped
    /// otherwise.
    pub open spec fn takes_fragment(
        self,
        after: Self,
        peer_id: CoreBluetoothPeerId,
        protocol: PeerProtocol,
        fragment: Vec<u8>,
        taken: bool,
    ) -> bool {
        if self.speaks(peer_id, protocol) {
            let session = self.sessions[peer_id];
            &&& ingress::answers_push(session.data_tx.inbox(), fragment, taken)
            &&& after == self.with_session(peer_id, after.sessions[peer_id])
            &&& after.sessions[peer_id].passes_on(
                session,
                Seq::empty(),
                seq![Offer { value: fragment@, taken }],
            )
        } else {
            taken && after == self
        }
    }

    /// The control message goes to the peer's session where it speaks the native protocol, and is
    /// dropped otherwise.
    pub open spec fn takes_control(
        self,
        after: Self,
        peer_id: CoreBluetoothPeerId,
        control: C,
        taken: bool,
    ) -> bool {
        if self.speaks(peer_id, PeerProtocol::Native) {
            let session = self.sessions[peer_id];
            &&& exists|outcome: BoundedIngress<C>| #[trigger]
                ingress::offered(session.control_tx.sender(), control, outcome) && taken == (
                outcome is Accepted)
            &&& after == self.with_session(peer_id, after.sessions[peer_id])
            &&& after.sessions[peer_id].passes_on(
                session,
                seq![Offer { value: control, taken }],
                Seq::empty(),
            )
        } else {
            taken && after == self
        }
    }

    /// The control message by which a native session is opened is the first thing, and the only
    /// one, that is offered to the owner of that session.
    pub proof fn law_opening_message_reaches_the_new_session<
        E,
        O: FnOnce() -> OpenedLink<R, C, D, E>,
    >(
        self,
        opened: Self,
        after: Self,
        peer_id: CoreBluetoothPeerId,
        before: BoundedQueue<InboundLink<E>>,
        inbound: BoundedQueue<InboundLink<E>>,
        open: O,
        control: C,
        taken: bool,
    )
        requires
            self.opens(opened, peer_id, InboundProfile::Native, before, inbound, open, true),
            opened.takes_control(after, peer_id, control, taken),
        ensures
            after.speaks(peer_id, PeerProtocol::Native),
            after.sessions[peer_id].control_tx.offers() == seq![Offer { value: control, taken }],
            after.sessions[peer_id].data_tx.offers().len() == 0,
    {
        assert(opened.speaks(peer_id, PeerProtocol::Native));
        let before = opened.sessions[peer_id];
        assert(before.control_tx.offers() + seq![Offer { value: control, taken }]
            =~= seq![Offer { value: control, taken }]);
    }
}

impl<R, C, D: GattInbox, Ch: L2capChannel> PeripheralModel<R, C, D, Ch> {
    /// A control message of a peer without a session opens one and is handed to it.
    pub open spec fn opens_with_control<E, O: FnOnce() -> OpenedLink<R, C, D, E>>(
        self,
        after: Self,
        answer: AttAnswer,
        radio_enabled: bool,
        peer_id: CoreBluetoothPeerId,
        control: C,
        before: BoundedQueue<InboundLink<E>>,
        inbound: BoundedQueue<InboundLink<E>>,
        open: O,
    ) -> bool {
        exists|accepted: bool, opened: Self|
            {
                &&& #[trigger] self.tries_to_open(
                    opened,
                    radio_enabled,
                    peer_id,
                    InboundProfile::Native,
                    before,
                    inbound,
                    open,
                    accepted,
                )
                &&& if accepted {
                    opened.takes_control(after, peer_id, control, answer is Success)
                } else {
                    after == opened && answer is InsufficientResources
                }
            }
    }

    /// A value that was written, where sessions have been reaped, leads to `after` and the answer.
    /// Nothing is offered to the host but the link of a session that is opened.
    pub open spec fn takes_write<
        E,
        G: Fn(&Vec<u8>) -> Option<C>,
        O: FnOnce() -> OpenedLink<R, C, D, E>,
    >(
        self,
        after: Self,
        answer: AttAnswer,
        still_enabled: bool,
        peer_id: CoreBluetoothPeerId,
        role: Option<CharacteristicRole>,
        value: Vec<u8>,
        before: BoundedQueue<InboundLink<E>>,
        inbound: BoundedQueue<InboundLink<E>>,
        decode: G,
        open: O,
    ) -> bool {
        let known = self.sessions.dom().contains(peer_id);
        match role {
            Some(CharacteristicRole::Data) => {
                &&& self.takes_fragment(
                    after,
                    peer_id,
                    PeerProtocol::Native,
                    value,
                    answer is Success,
                )
                &&& inbound == before
            },
            Some(CharacteristicRole::ColumbaRx) => if !known && value@.len() == 16 {
                exists|identity: BleIdentity|
                    {
                        &&& identity.0@ == value@
                        &&& #[trigger] self.tries_to_open(
                            after,
                            still_enabled,
                            peer_id,
                            InboundProfile::Columba(identity),
                            before,
                            inbound,
                            open,
                            answer is Success,
                        )
                    }
            } else {
                &&& self.takes_fragment(
                    after,
                    peer_id,
                    PeerProtocol::Columba,
                    value,
                    answer is Success,
                )
                &&& inbound == before
            },
            _ => {
                ||| {
                    &&& call_ensures(decode, (&value,), None)
                    &&& after == self && answer is Success
                    &&& inbound == before
                }
                ||| exists|control: C| #[trigger]
                    call_ensures(decode, (&value,), Some(control)) && if known {
                        &&& self.takes_control(after, peer_id, control, answer is Success)
                        &&& inbound == before
                    } else {
                        self.opens_with_control(
                            after,
                            answer,
                            still_enabled,
                            peer_id,
                            control,
                            before,
                            inbound,
                            open,
                        )
                    }
            },
        }
    }
}

impl<R, C, D: GattInbox, Ch: L2capChannel> PeripheralState<R, C, D, Ch> {
    fn push_fragment(
        &mut self,
        peer_id: CoreBluetoothPeerId,
        protocol: PeerProtocol,
        fragment: Vec<u8>,
    ) -> (r: bool)
        requires
            old(self).wf(),
        ensures
            final(self).wf(),
            old(self)@.takes_fragment(final(self)@, peer_id, protocol, fragment, r),
    {
        let mut session = match self.sessions.remove(peer_id) {
            Some(session) => session,
            None => {
                assert(self@.sessions =~= old(self)@.sessions);
                return true;
            },
        };
        let ghost before = session;
        let taken = if session.protocol == protocol {
            session.data_tx.offer(fragment)
        } else {
            true
        };
        let ghost after = session;
        self.sessions.insert(peer_id, session);
        proof {
            assert(self@.sessions =~= old(self)@.sessions.insert(peer_id, after));
            assert(before.control_tx.offers() + Seq::empty() =~= before.control_tx.offers());
            if before.protocol != protocol {
                assert(self@.sessions =~= old(self)@.sessions);
            }
        }
        taken
    }

    fn push_control(&mut self, peer_id: CoreBluetoothPeerId, control: C) -> (r: bool)
        requires
            old(self).wf(),
        ensures
            final(self).wf(),
            old(self)@.takes_control(final(self)@, peer_id, control, r),
    {
        let mut session = match self.sessions.remove(peer_id) {
            Some(session) => session,
            None => {
                assert(self@.sessions =~= old(self)@.sessions);
                return true;
            },
        };
        let ghost before = session;
        let taken = if session.protocol == PeerProtocol::Native {
            match session.control_tx.offer(control) {
                BoundedIngress::Accepted => true,
                _ => false,
            }
        } else {
            true
        };
        let ghost after = session;
        self.sessions.insert(peer_id, session);
        proof {
            assert(self@.sessions =~= old(self)@.sessions.insert(peer_id, after));
            assert(before.data_tx.offers() + Seq::empty() =~= before.data_tx.offers());
            if before.protocol != PeerProtocol::Native {
                assert(self@.sessions =~= old(self)@.sessions);
            }
        }
        taken
    }

    /// A peer wrote to a characteristic. The first control message, or the identity of a Columba
    /// peer, opens its session; everything else goes to the session that is there. `decode` reads
    /// a control message. The radio can go off while several writes are handled: `radio_enabled` is
    /// how they found it, and `still_enabled` is how it is where a session would be opened.
    pub fn did_receive_write<
        E,
        G: Fn(&Vec<u8>) -> Option<C>,
        O: FnOnce() -> OpenedLink<R, C, D, E>,
    >(
        &mut self,
        radio_enabled: bool,
        still_enabled: bool,
        peer_id: CoreBluetoothPeerId,
        role: Option<CharacteristicRole>,
        value: Option<Vec<u8>>,
        inbound: &mut BoundedQueue<InboundLink<E>>,
        decode: G,
        open: O,
    ) -> (r: AttAnswer)
        requires
            old(self).wf(),
            forall|bytes: &Vec<u8>| call_requires(decode, (bytes,)),
            call_requires(open, ()),
        ensures
            final(self).wf(),
            !radio_enabled ==> {
                &&& r is InsufficientResources
                &&& final(self)@ == old(self)@
                &&& *final(inbound) == *old(inbound)
            },
            radio_enabled ==> match value {
                None => {
                    &&& r is Success
                    &&& final(self)@ == old(self)@
                    &&& *final(inbound) == *old(inbound)
                },
                Some(value) => exists|reaped: PeripheralModel<R, C, D, Ch>| #[trigger]
                    old(self)@.reaps(reaped, None) && reaped.takes_write(
                        final(self)@,
                        r,
                        still_enabled,
                        peer_id,
                        role,
                        value,
                        *old(inbound),
                        *final(inbound),
                        decode,
                        open,
                    ),
            },
    {
        if !radio_enabled {
            return AttAnswer::InsufficientResources;
        }
        let value = match value {
            Some(value) => value,
            None => {
                return AttAnswer::Success;
            },
        };
        let ghost written = value;
        let ghost before = *inbound;
        self.reap(None);
        let ghost reaped = self@;
        let mut accepted = true;
        match role {
            Some(CharacteristicRole::Data) => {
                accepted = self.push_fragment(peer_id, PeerProtocol::Native, value);
            },
            Some(CharacteristicRole::ColumbaRx) => {
                let known = self.sessions.contains_key(peer_id);
                let identity = if known {
                    None
                } else {
                    BleIdentity::from_slice(value.as_slice())
                };
                match identity {
                    Some(identity) => {
                        accepted = self.open_inbound(
                            still_enabled,
                            peer_id,
                            InboundProfile::Columba(identity),
                            inbound,
                            open,
                        );
                    },
                    None => {
                        accepted = self.push_fragment(peer_id, PeerProtocol::Columba, value);
                    },
                }
            },
            _ => {
                if let Some(control) = decode(&value) {
                    let ghost decoded = control;
                    let known = self.sessions.contains_key(peer_id);
                    if !known {
                        accepted = self.open_inbound(
                            still_enabled,
                            peer_id,
                            InboundProfile::Native,
                            inbound,
                            open,
                        );
                    }
                    let ghost opened = self@;
                    let ghost opens = accepted;
                    if accepted {
                        accepted = self.push_control(peer_id, control);
                    }
                    proof {
                        assert(call_ensures(decode, (&written,), Some(decoded)));
                        if !known {
                            assert(reaped.tries_to_open(
                                opened,
                                still_enabled,
                                peer_id,
                                InboundProfile::Native,
                                before,
                                *inbound,
                                open,
                                opens,
                            ));
                            assert(reaped.opens_with_control(
                                self@,
                                if accepted {
                                    AttAnswer::Success
                                } else {
                                    AttAnswer::InsufficientResources
                                },
                                still_enabled,
                                peer_id,
                                decoded,
                                before,
                                *inbound,
                                open,
                            ));
                        }
                    }
                }
            },
        }
        let answer = if accepted {
            AttAnswer::Success
        } else {
            AttAnswer::InsufficientResources
        };
        assert(reaped.takes_write(
            self@,
            answer,
            still_enabled,
            peer_id,
            role,
            written,
            before,
            *inbound,
            decode,
            open,
        ));
        answer
    }
}

/// Why an inbound L2CAP channel is closed again.
#[derive(Clone, Copy, Debug, PartialEq, Eq, Structural)]
pub enum L2capRefusal {
    /// The radio is off.
    RadioOff,
    /// The channel names no exact peer.
    NoPeer,
    /// Nobody here knows the exact peer.
    UnknownPeer,
    /// No pending entry is left for the peer.
    Full,
    /// The pending entry of the exact peer takes no more channels.
    PeerFull,
}

/// What became of an inbound L2CAP channel that was admitted.
#[derive(Clone, Copy, Debug, PartialEq, Eq, Structural)]
pub enum L2capOutcome {
    /// The channel exposes no streams and is to be closed.
    NoStreams,
    /// The channel was handed to whoever waited for it, or is kept.
    Delivered,
    /// The entry of the exact peer closed after admission, and the channel was dropped.
    Dropped,
}

impl<R, C, D, Ch> PeripheralModel<R, C, D, Ch> {
    /// Why a channel of the exact peer is refused, where sessions have been reaped.
    pub open spec fn refusal(self, peer_id: CoreBluetoothPeerId) -> Option<L2capRefusal> {
        match peripheral::delivery_admission(
            self.sessions,
            self.pending,
            peer_id,
            self.pending_capacity,
        ) {
            L2capDeliveryAdmission::Unknown => Some(L2capRefusal::UnknownPeer),
            L2capDeliveryAdmission::Full => Some(L2capRefusal::Full),
            L2capDeliveryAdmission::Listener => None,
            L2capDeliveryAdmission::Existing => if self.pending[peer_id]@.can_deliver() {
                None
            } else {
                Some(L2capRefusal::PeerFull)
            },
        }
    }
}

impl<R, C, D, Ch: L2capChannel> PeripheralModel<R, C, D, Ch> {
    /// What was wired of an admitted channel leads to `after`: a channel without streams changes
    /// nothing.
    pub open spec fn takes_channel(
        self,
        after: Self,
        peer_id: CoreBluetoothPeerId,
        wired: Option<Ch>,
        outcome: L2capOutcome,
    ) -> bool {
        match wired {
            Some(channel) => self.keeps_channel(after, peer_id, channel, outcome),
            None => outcome is NoStreams && after == self,
        }
    }

    /// An admitted channel was put into the entry of the exact peer.
    pub open spec fn keeps_channel(
        self,
        after: Self,
        peer_id: CoreBluetoothPeerId,
        channel: Ch,
        outcome: L2capOutcome,
    ) -> bool {
        &&& outcome is Delivered || outcome is Dropped
        &&& pending::delivers_entry(
            peripheral::held(self.pending, peer_id),
            peripheral::held(after.pending, peer_id),
            self.channel_capacity,
            channel,
            outcome is Delivered,
        )
        &&& after == self.with_pending(peer_id, peripheral::held(after.pending, peer_id))
    }

    /// Somebody who waits for a channel of the exact peer, where sessions have been reaped, leads
    /// to `after`: they are refused where the peer has no entry and can get none.
    pub open spec fn takes_waiter(
        self,
        after: Self,
        peer_id: CoreBluetoothPeerId,
        waiter: oneshot::Sender<Ch>,
        armed: bool,
    ) -> bool {
        if self.pending.dom().contains(peer_id) || self.pending.dom().len()
            < self.pending_capacity {
            &&& pending::arms_entry(
                peripheral::held(self.pending, peer_id),
                peripheral::held(after.pending, peer_id),
                self.channel_capacity,
                waiter,
                armed,
            )
            &&& after == self.with_pending(peer_id, peripheral::held(after.pending, peer_id))
        } else {
            !armed && after == self
        }
    }

    proof fn lemma_changed_entry_wf(
        self,
        entry: Option<PendingL2cap<Ch>>,
        after: Option<PendingL2cap<Ch>>,
    )
        requires
            entry matches Some(entry) ==> self.entry_wf(entry),
            (exists|waiter: oneshot::Sender<Ch>, armed: bool| #[trigger]
                pending::arms_entry(entry, after, self.channel_capacity, waiter, armed)) || (exists|
                channel: Ch,
                taken: bool,
            | #[trigger]
                pending::delivers_entry(entry, after, self.channel_capacity, channel, taken)),
        ensures
            after matches Some(after) ==> self.entry_wf(after),
    {
        let start = pending::entry_model(entry, self.channel_capacity);
        if exists|waiter: oneshot::Sender<Ch>, armed: bool| #[trigger]
            pending::arms_entry(entry, after, self.channel_capacity, waiter, armed) {
            let (waiter, armed) = choose|waiter: oneshot::Sender<Ch>, armed: bool| #[trigger]
                pending::arms_entry(entry, after, self.channel_capacity, waiter, armed);
            let (reaped, left) = choose|reaped: PendingModel<Ch>, left: PendingModel<Ch>|
                {
                    &&& #[trigger] start.reaps(reaped)
                    &&& #[trigger] reaped.arms(left, waiter, armed)
                    &&& pending::leaves(left, after)
                };
            start.law_bounds_are_kept(reaped);
            reaped.law_bounds_are_kept(left);
        } else {
            let (channel, taken) = choose|channel: Ch, taken: bool| #[trigger]
                pending::delivers_entry(entry, after, self.channel_capacity, channel, taken);
            let (reaped, left) = choose|reaped: PendingModel<Ch>, left: PendingModel<Ch>|
                {
                    &&& #[trigger] start.reaps(reaped)
                    &&& #[trigger] reaped.delivers(left, channel, taken)
                    &&& pending::leaves(left, after)
                };
            start.law_bounds_are_kept(reaped);
            reaped.law_bounds_are_kept(left);
        }
    }
}

impl<R, C, D: GattInbox, Ch: L2capChannel> PeripheralState<R, C, D, Ch> {
    /// Puts back what is left of the entry that was taken out for the peer.
    fn put_back(&mut self, peer_id: CoreBluetoothPeerId, entry: Option<PendingL2cap<Ch>>)
        requires
            old(self).wf(),
            !old(self)@.pending.dom().contains(peer_id),
            old(self)@.pending.dom().len() < old(self)@.pending_capacity,
            entry matches Some(entry) ==> old(self)@.entry_wf(entry),
        ensures
            final(self).wf(),
            final(self)@ == old(self)@.with_pending(peer_id, entry),
            peripheral::held(final(self)@.pending, peer_id) == entry,
    {
        match entry {
            Some(entry) => {
                self.pending.insert(peer_id, entry);
            },
            None => {
                assert(self@.pending.remove(peer_id) =~= self@.pending);
            },
        }
    }

    /// A peer opened an L2CAP channel. Only a channel of an exact peer that has a session or
    /// somebody waiting is admitted, and only while its entry has room. The streams of a channel are
    /// opened once it was admitted; a refused one is closed as it came.
    pub fn admit_l2cap(&mut self, radio_enabled: bool, peer: Option<CoreBluetoothPeerId>) -> (r: Result<
        CoreBluetoothPeerId,
        L2capRefusal,
    >)
        requires
            old(self).wf(),
        ensures
            final(self).wf(),
            !radio_enabled ==> r == Err::<CoreBluetoothPeerId, L2capRefusal>(L2capRefusal::RadioOff)
                && final(self)@ == old(self)@,
            radio_enabled ==> match peer {
                None => r == Err::<CoreBluetoothPeerId, L2capRefusal>(L2capRefusal::NoPeer)
                    && final(self)@ == old(self)@,
                Some(peer_id) => {
                    &&& old(self)@.reaps(final(self)@, None)
                    &&& r == match final(self)@.refusal(peer_id) {
                        Some(refusal) => Err(refusal),
                        None => Ok(peer_id),
                    }
                },
            },
    {
        if !radio_enabled {
            return Err(L2capRefusal::RadioOff);
        }
        let peer_id = match peer {
            Some(peer_id) => peer_id,
            None => {
                return Err(L2capRefusal::NoPeer);
            },
        };
        self.reap(None);
        let admission = l2cap_delivery_admission(
            &self.sessions,
            &self.pending,
            peer_id,
            self.pending_capacity,
        );
        let has_room = match self.pending.get(peer_id) {
            Some(entry) => entry.can_deliver(),
            None => true,
        };
        match admission {
            L2capDeliveryAdmission::Unknown => Err(L2capRefusal::UnknownPeer),
            L2capDeliveryAdmission::Full => Err(L2capRefusal::Full),
            L2capDeliveryAdmission::Existing | L2capDeliveryAdmission::Listener => if has_room {
                Ok(peer_id)
            } else {
                Err(L2capRefusal::PeerFull)
            },
        }
    }

    /// The streams of an admitted channel were opened, where it has any. The channel goes to whoever
    /// has waited longest for it, or is kept.
    pub fn deliver_l2cap(&mut self, peer_id: CoreBluetoothPeerId, wired: Option<Ch>) -> (r:
        L2capOutcome)
        requires
            old(self).wf(),
            old(self)@.refusal(peer_id) is None,
        ensures
            final(self).wf(),
            old(self)@.takes_channel(final(self)@, peer_id, wired, r),
    {
        let ghost before = self@;
        let channel = match wired {
            Some(channel) => channel,
            None => {
                return L2capOutcome::NoStreams;
            },
        };
        let ghost came = channel;
        let entry = self.pending.remove(peer_id);
        let ghost was = entry;
        assert(was == peripheral::held(before.pending, peer_id));
        let (left, taken) = PendingL2cap::deliver_entry(entry, self.channel_capacity, channel);
        let ghost kept = left;
        proof {
            assert(pending::delivers_entry(was, kept, before.channel_capacity, came, taken));
            before.lemma_changed_entry_wf(was, kept);
        }
        self.put_back(peer_id, left);
        assert(self@.pending =~= before.with_pending(peer_id, kept).pending);
        if taken {
            L2capOutcome::Delivered
        } else {
            L2capOutcome::Dropped
        }
    }

    /// Somebody waits for a channel of the exact peer from now on, or is handed the one that came
    /// first. Says whether they were not refused.
    pub fn arm_pending_channel(
        &mut self,
        radio_enabled: bool,
        peer_id: CoreBluetoothPeerId,
        waiter: oneshot::Sender<Ch>,
    ) -> (r: bool)
        requires
            old(self).wf(),
        ensures
            final(self).wf(),
            !radio_enabled ==> !r && final(self)@ == old(self)@,
            radio_enabled ==> exists|reaped: PeripheralModel<R, C, D, Ch>| #[trigger]
                old(self)@.reaps(reaped, None) && reaped.takes_waiter(
                    final(self)@,
                    peer_id,
                    waiter,
                    r,
                ),
    {
        if !radio_enabled {
            return false;
        }
        self.reap(None);
        let ghost reaped = self@;
        if !can_arm_l2cap(&self.pending, peer_id, self.pending_capacity) {
            assert(reaped.takes_waiter(self@, peer_id, waiter, false));
            return false;
        }
        let ghost asks = waiter;
        let entry = self.pending.remove(peer_id);
        let ghost was = entry;
        assert(was == peripheral::held(reaped.pending, peer_id));
        let (left, armed) = PendingL2cap::arm_entry(entry, self.channel_capacity, waiter);
        let ghost kept = left;
        proof {
            assert(pending::arms_entry(was, kept, reaped.channel_capacity, asks, armed));
            reaped.lemma_changed_entry_wf(was, kept);
        }
        self.put_back(peer_id, left);
        proof {
            assert(self@.pending =~= reaped.with_pending(peer_id, kept).pending);
            assert(reaped.takes_waiter(self@, peer_id, asks, armed));
        }
        armed
    }
}

/// Which of a session's two streams a notification belongs to.
#[derive(Clone, Copy, Debug, PartialEq, Eq, Structural)]
pub enum ListenerCharacteristic {
    Control,
    Data,
}

/// The characteristic that carries a notification to a peer of the protocol.
pub open spec fn notify_role(
    protocol: PeerProtocol,
    target: ListenerCharacteristic,
) -> CharacteristicRole {
    match protocol {
        PeerProtocol::Native => match target {
            ListenerCharacteristic::Control => CharacteristicRole::Control,
            ListenerCharacteristic::Data => CharacteristicRole::Data,
        },
        PeerProtocol::Columba => CharacteristicRole::ColumbaTx,
    }
}

/// The protocol whose session ends where a peer unsubscribes from the characteristic.
pub open spec fn unsubscribed_protocol(role: Option<CharacteristicRole>) -> Option<PeerProtocol> {
    match role {
        Some(CharacteristicRole::Control) => Some(PeerProtocol::Native),
        Some(CharacteristicRole::ColumbaTx) => Some(PeerProtocol::Columba),
        _ => None,
    }
}

impl<R, C, D: GattInbox, Ch: L2capChannel> PeripheralState<R, C, D, Ch> {
    /// Whom a notification goes to and which characteristic carries it. Nobody is notified with the
    /// radio off, without a manager, or without a session.
    pub fn notify(
        &mut self,
        radio_enabled: bool,
        manager_known: bool,
        peer_id: CoreBluetoothPeerId,
        target: ListenerCharacteristic,
    ) -> (r: Option<(R, CharacteristicRole)>) where R: Clone
        requires
            old(self).wf(),
        ensures
            final(self).wf(),
            !radio_enabled ==> r is None && final(self)@ == old(self)@,
            radio_enabled ==> {
                &&& old(self)@.reaps(final(self)@, None)
                &&& match r {
                    Some((central, role)) => {
                        &&& manager_known && final(self)@.sessions.dom().contains(peer_id)
                        &&& cloned(final(self)@.sessions[peer_id].central, central)
                        &&& role == notify_role(final(self)@.sessions[peer_id].protocol, target)
                    },
                    None => !manager_known || !final(self)@.sessions.dom().contains(peer_id),
                }
            },
    {
        if !radio_enabled {
            return None;
        }
        self.reap(None);
        if !manager_known {
            return None;
        }
        match self.sessions.get(peer_id) {
            Some(session) => {
                let role = match (session.protocol, target) {
                    (PeerProtocol::Native, ListenerCharacteristic::Control) => {
                        CharacteristicRole::Control
                    },
                    (PeerProtocol::Native, ListenerCharacteristic::Data) => {
                        CharacteristicRole::Data
                    },
                    (PeerProtocol::Columba, _) => CharacteristicRole::ColumbaTx,
                };
                Some((session.central.clone(), role))
            },
            None => None,
        }
    }

    /// A peer unsubscribed from a characteristic. Its session ends where that is the one by which
    /// it listens. Says whether it did.
    pub fn did_unsubscribe(
        &mut self,
        peer_id: CoreBluetoothPeerId,
        role: Option<CharacteristicRole>,
    ) -> (r: bool)
        requires
            old(self).wf(),
        ensures
            final(self).wf(),
            exists|reaped: PeripheralModel<R, C, D, Ch>|
                {
                    &&& #[trigger] old(self)@.reaps(reaped, None)
                    &&& r == (reaped.sessions.dom().contains(peer_id) && Some(
                        reaped.sessions[peer_id].protocol,
                    ) == unsubscribed_protocol(role))
                    &&& final(self)@ == if r {
                        reaped.cleared(peer_id)
                    } else {
                        reaped
                    }
                },
    {
        self.reap(None);
        let ghost reaped = self@;
        let ends = match self.sessions.get(peer_id) {
            Some(session) => match (session.protocol, role) {
                (PeerProtocol::Native, Some(CharacteristicRole::Control)) => true,
                (PeerProtocol::Columba, Some(CharacteristicRole::ColumbaTx)) => true,
                _ => false,
            },
            None => false,
        };
        assert(old(self)@.reaps(reaped, None));
        if ends {
            self.clear_peer(peer_id);
        }
        ends
    }

    /// The link to a peer at the address was closed.
    pub fn clear_closed_peer(&mut self, address: BleAddress)
        requires
            old(self).wf(),
        ensures
            final(self).wf(),
            old(self)@.reaps(final(self)@, Some(address)),
    {
        self.reap(Some(address));
    }
}

} // verus!
