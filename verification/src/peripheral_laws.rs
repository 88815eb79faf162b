//! What holds of the peripheral role's operations: which stream a notification or a write belongs
//! to, whose session opens and ends, and who gets an L2CAP channel.

use crate::central::CentralState;
use crate::central_events::EventStep;
use crate::central_laws;
use crate::handoff_laws;
use crate::ingress;
use crate::ingress::{BoundedIngress, BoundedQueue, GattInbox, Offer};
use crate::peer::{BleAddress, BleIdentity, CoreBluetoothPeerId, PeerProtocol};
use crate::pending;
use crate::pending::{L2capChannel, PendingL2cap, PendingModel};
use crate::peripheral;
use crate::peripheral::{
    InboundProfile, PeripheralModel, PeripheralPeerSession, PeripheralState, PublicationRequest,
};
use crate::peripheral_events;
use crate::peripheral_events::{
    AttAnswer, InboundLink, L2capOutcome, L2capRefusal, ListenerCharacteristic, OpenedLink,
};
use crate::profile;
use crate::profile::{CharacteristicPlan, CharacteristicRole};
use crate::session::CompletionDelivery;
use tokio::sync::oneshot;
use vstd::prelude::*;

verus! {

/// The peer has an inbound session whose owner is there.
pub open spec fn has_live_session<R, C, D: GattInbox, Ch>(
    state: PeripheralModel<R, C, D, Ch>,
    peer_id: CoreBluetoothPeerId,
) -> bool {
    &&& state.sessions.dom().contains(peer_id)
    &&& !ingress::reports_closed(state.sessions[peer_id].data_tx.inbox(), true)
}

/// A notification reaches the stream that it is meant for. What the central role of the notified
/// peer makes of it is a control message where it is meant for control, and a fragment where it is
/// meant for data, once, and nothing in the other stream. A Columba peer has one stream, and gets
/// everything there.
pub proof fn law_notification_reaches_its_stream<
    R: Clone,
    C,
    D: GattInbox,
    Ch: L2capChannel,
    P2,
    C2,
    K2: Clone,
    D2: GattInbox,
    T2,
    F2: Fn(&Vec<u8>) -> Option<C2>,
>(
    state: &mut PeripheralState<R, C, D, Ch>,
    peer_id: CoreBluetoothPeerId,
    target: ListenerCharacteristic,
    notified: Option<(R, CharacteristicRole)>,
    peer: &mut CentralState<P2, C2, K2, D2, T2>,
    host_id: CoreBluetoothPeerId,
    value: Vec<u8>,
    decode: F2,
    read: spec_fn(Seq<u8>) -> Option<C2>,
    told: Option<CompletionDelivery<K2>>,
)
    requires
        old(state).wf(),
        call_ensures(
            PeripheralState::<R, C, D, Ch>::notify,
            (state, true, true, peer_id, target),
            notified,
        ),
        has_live_session(old(state)@, peer_id),
        old(peer).wf(),
        notified matches Some((_, role)) ==> call_ensures(
            CentralState::<P2, C2, K2, D2, T2>::did_update_value::<F2>,
            (peer, host_id, false, Some(role), Some(value), decode),
            EventStep::<P2, K2>::Stays(told),
        ),
        old(peer)@.sessions.dom().contains(host_id),
        forall|k: int|
            0 <= k < old(peer)@.registry.restored.len() ==> (
            #[trigger] old(peer)@.registry.restored[k]).peer_id != host_id,
        handoff_laws::decodes(decode, read),
    ensures
        notified is Some,
        ({
            let before = old(peer)@.sessions[host_id];
            let after = final(peer)@.sessions[host_id];
            if old(state)@.sessions[peer_id].protocol == PeerProtocol::Native && target
                == ListenerCharacteristic::Control {
                &&& after.data_tx.offers() == before.data_tx.offers()
                &&& read(value@) matches Some(control) ==> central_laws::took_one_more(
                    before.control_tx.offers(),
                    after.control_tx.offers(),
                    control,
                )
            } else {
                &&& after.control_tx.offers() == before.control_tx.offers()
                &&& central_laws::took_one_more(
                    before.data_tx.offers(),
                    after.data_tx.offers(),
                    value@,
                )
            }
        }),
{
    let (central, role) = notified.unwrap();
    central_laws::law_value_reaches_its_stream::<P2, C2, K2, D2, T2, F2>(
        peer,
        host_id,
        Some(role),
        value,
        decode,
        read,
        EventStep::<P2, K2>::Stays(told),
    );
}

/// Exactly a peer with a session is notified, with the radio on and a manager there, by its own
/// central. A peer is notified only by a characteristic that is published with notifications. To a
/// native peer control and data go by the characteristics of their names, which are two; to a
/// Columba peer both go by the one that it listens to.
pub proof fn law_notified_characteristic<R: Clone, C, D: GattInbox, Ch: L2capChannel>(
    state: &mut PeripheralState<R, C, D, Ch>,
    radio_enabled: bool,
    manager_known: bool,
    peer_id: CoreBluetoothPeerId,
    target: ListenerCharacteristic,
    notified: Option<(R, CharacteristicRole)>,
    plan: CharacteristicPlan,
)
    requires
        call_ensures(
            PeripheralState::<R, C, D, Ch>::notify,
            (state, radio_enabled, manager_known, peer_id, target),
            notified,
        ),
        notified matches Some((_, role)) ==> call_ensures(
            profile::characteristic_plan,
            (role,),
            plan,
        ),
    ensures
        notified is Some <==> radio_enabled && manager_known
            && final(state)@.sessions.dom().contains(peer_id),
        radio_enabled && has_live_session(old(state)@, peer_id) ==> final(
            state)@.sessions.dom().contains(peer_id),
        final(state)@.sessions.dom().contains(peer_id) ==> old(
            state)@.sessions.dom().contains(peer_id) && final(state)@.sessions[peer_id] == old(
            state)@.sessions[peer_id],
        notified matches Some((central, role)) ==> {
            let session = final(state)@.sessions[peer_id];
            &&& plan.notify
            &&& cloned(session.central, central)
            &&& session.protocol == PeerProtocol::Native ==> {
                &&& target == ListenerCharacteristic::Control <==> role
                    == CharacteristicRole::Control
                &&& target == ListenerCharacteristic::Data <==> role == CharacteristicRole::Data
            }
            &&& session.protocol == PeerProtocol::Columba ==> role == CharacteristicRole::ColumbaTx
        },
{
}

/// A peer that unsubscribes from the characteristic by which control messages reach it is gone,
/// with everything that is pending for it. Unsubscribing from any other one changes nothing, and
/// nobody else loses anything by it.
pub proof fn law_unsubscription<R: Clone, C, D: GattInbox, Ch: L2capChannel>(
    state: &mut PeripheralState<R, C, D, Ch>,
    peer_id: CoreBluetoothPeerId,
    notified: Option<(R, CharacteristicRole)>,
    later: &mut PeripheralState<R, C, D, Ch>,
    role: CharacteristicRole,
    ended: bool,
    other: CoreBluetoothPeerId,
)
    requires
        call_ensures(
            PeripheralState::<R, C, D, Ch>::notify,
            (state, true, true, peer_id, ListenerCharacteristic::Control),
            notified,
        ),
        *old(later) == *final(state),
        has_live_session(old(later)@, peer_id),
        call_ensures(
            PeripheralState::<R, C, D, Ch>::did_unsubscribe,
            (later, peer_id, Some(role)),
            ended,
        ),
    ensures
        notified matches Some((_, listens)) && (ended <==> role == listens),
        ended <==> !final(later)@.sessions.dom().contains(peer_id),
        ended ==> !final(later)@.pending.dom().contains(peer_id),
        !ended ==> final(later)@.sessions[peer_id] == old(later)@.sessions[peer_id],
        other != peer_id && has_live_session(old(later)@, other) ==> final(
            later)@.sessions.dom().contains(other) && final(later)@.sessions[other] == old(
            later)@.sessions[other],
{
}

/// What became of a value that was offered once: the log has grown by it, marked by whether it was
/// taken.
pub open spec fn was_offered<A>(
    before: Seq<Offer<A>>,
    after: Seq<Offer<A>>,
    value: A,
    taken: bool,
) -> bool {
    &&& after.len() == before.len() + 1
    &&& after.drop_last() == before
    &&& after.last().value == value
    &&& after.last().taken == taken
}

/// A value that a peer with a session writes goes to the stream that it is for, once, and the
/// answer says whether it was taken. A native peer writes its fragments to the data characteristic
/// and control messages to the others; a Columba peer writes its fragments, whatever their length,
/// to the one that it speaks by. What does not belong to the peer's protocol is dropped. The host is
/// offered no second link.
pub proof fn law_written_value_reaches_its_stream<
    R,
    C,
    D: GattInbox,
    Ch: L2capChannel,
    E,
    G: Fn(&Vec<u8>) -> Option<C>,
    O: FnOnce() -> OpenedLink<R, C, D, E>,
>(
    state: &mut PeripheralState<R, C, D, Ch>,
    still_enabled: bool,
    peer_id: CoreBluetoothPeerId,
    role: Option<CharacteristicRole>,
    value: Vec<u8>,
    inbound: &mut BoundedQueue<InboundLink<E>>,
    decode: G,
    read: spec_fn(Seq<u8>) -> Option<C>,
    open: O,
    answer: AttAnswer,
)
    requires
        call_ensures(
            PeripheralState::<R, C, D, Ch>::did_receive_write::<E, G, O>,
            (state, true, still_enabled, peer_id, role, Some(value), inbound, decode, open),
            answer,
        ),
        has_live_session(old(state)@, peer_id),
        handoff_laws::decodes(decode, read),
    ensures
        *final(inbound) == *old(inbound),
        final(state)@.sessions.dom().contains(peer_id),
        ({
            let before = old(state)@.sessions[peer_id];
            let after = final(state)@.sessions[peer_id];
            let native = before.protocol == PeerProtocol::Native;
            let is_fragment = if native {
                role == Some(CharacteristicRole::Data)
            } else {
                role == Some(CharacteristicRole::ColumbaRx)
            };
            let is_control = native && role != Some(CharacteristicRole::Data) && role != Some(
                CharacteristicRole::ColumbaRx,
            ) && read(value@) is Some;
            &&& after.central == before.central && after.protocol == before.protocol
            &&& is_fragment ==> was_offered(
                before.data_tx.offers(),
                after.data_tx.offers(),
                value@,
                answer is Success,
            )
            &&& !is_fragment ==> after.data_tx.offers() == before.data_tx.offers()
            &&& is_control ==> was_offered(
                before.control_tx.offers(),
                after.control_tx.offers(),
                read(value@)->0,
                answer is Success,
            )
            &&& !is_control ==> after.control_tx.offers() == before.control_tx.offers()
            &&& !is_fragment && !is_control ==> answer is Success
        }),
{
    let reaped = choose|reaped: PeripheralModel<R, C, D, Ch>| #[trigger]
        old(state)@.reaps(reaped, None) && reaped.takes_write(
            final(state)@,
            answer,
            still_enabled,
            peer_id,
            role,
            value,
            *old(inbound),
            *final(inbound),
            decode,
            open,
        );
    assert(reaped.sessions.dom().contains(peer_id));
    let before = reaped.sessions[peer_id];
    let after = final(state)@.sessions[peer_id];
    assert(before.data_tx.offers() + Seq::empty() =~= before.data_tx.offers());
    assert(before.control_tx.offers() + Seq::empty() =~= before.control_tx.offers());
    let fragment = Offer { value: value@, taken: answer is Success };
    assert((before.data_tx.offers() + seq![fragment]).drop_last() =~= before.data_tx.offers());
    if let Some(control) = read(value@) {
        let message = Offer { value: control, taken: answer is Success };
        assert((before.control_tx.offers() + seq![message]).drop_last()
            =~= before.control_tx.offers());
    }
}

/// The two logs of links differ by nothing that was taken.
pub open spec fn got_no_link<E>(
    before: BoundedQueue<InboundLink<E>>,
    after: BoundedQueue<InboundLink<E>>,
) -> bool {
    ingress::taken_values(after.offers()) == ingress::taken_values(before.offers())
}

/// The host got one link: it leads to the peer, in the protocol, and bears the identity where there
/// is one to bear.
pub open spec fn got_link<E>(
    before: BoundedQueue<InboundLink<E>>,
    after: BoundedQueue<InboundLink<E>>,
    peer_id: CoreBluetoothPeerId,
    protocol: PeerProtocol,
    identity: Option<Seq<u8>>,
) -> bool {
    let earlier = ingress::taken_values(before.offers());
    let links = ingress::taken_values(after.offers());
    &&& links.len() == earlier.len() + 1
    &&& links.drop_last() == earlier
    &&& links.last().peer_id == peer_id
    &&& links.last().address == peer_id.spec_address()
    &&& links.last().peer_protocol == protocol
    &&& links.last().peer_identity is Some <==> identity is Some
    &&& links.last().peer_identity matches Some(told) ==> identity == Some(told.0@)
}

/// A peer without a session gets one only by writing a control message, which makes it a native
/// peer, or sixteen bytes to the Columba characteristic, which are its identity; everything else is
/// dropped. It gets its session exactly where the host takes its link.
pub proof fn law_first_write_opens_the_session<
    R,
    C,
    D: GattInbox,
    Ch: L2capChannel,
    E,
    G: Fn(&Vec<u8>) -> Option<C>,
    O: FnOnce() -> OpenedLink<R, C, D, E>,
>(
    state: &mut PeripheralState<R, C, D, Ch>,
    still_enabled: bool,
    peer_id: CoreBluetoothPeerId,
    role: Option<CharacteristicRole>,
    value: Vec<u8>,
    inbound: &mut BoundedQueue<InboundLink<E>>,
    decode: G,
    read: spec_fn(Seq<u8>) -> Option<C>,
    open: O,
    answer: AttAnswer,
)
    requires
        call_ensures(
            PeripheralState::<R, C, D, Ch>::did_receive_write::<E, G, O>,
            (state, true, still_enabled, peer_id, role, Some(value), inbound, decode, open),
            answer,
        ),
        !old(state)@.sessions.dom().contains(peer_id),
        handoff_laws::decodes(decode, read),
        old(state).wf(),
    ensures
        still_enabled && old(state)@.sessions.dom().len() < old(state)@.session_capacity && (if role
            == Some(CharacteristicRole::ColumbaRx) {
            value@.len() == 16
        } else {
            role != Some(CharacteristicRole::Data) && read(value@) is Some
        }) ==> final(inbound).offers().len() == old(inbound).offers().len() + 1,
        ({
            let opened = final(state)@.sessions.dom().contains(peer_id);
            let session = final(state)@.sessions[peer_id];
            match role {
                Some(CharacteristicRole::Data) => {
                    &&& !opened && answer is Success
                    &&& *final(inbound) == *old(inbound)
                },
                Some(CharacteristicRole::ColumbaRx) => if value@.len() == 16 {
                    &&& opened <==> answer is Success
                    &&& opened ==> still_enabled && session.protocol == PeerProtocol::Columba
                        && session.control_tx.offers().len() == 0
                        && session.data_tx.offers().len() == 0 && got_link(
                        *old(inbound),
                        *final(inbound),
                        peer_id,
                        PeerProtocol::Columba,
                        Some(value@),
                    )
                    &&& !opened ==> got_no_link(*old(inbound), *final(inbound))
                } else {
                    &&& !opened && answer is Success
                    &&& *final(inbound) == *old(inbound)
                },
                _ => match read(value@) {
                    Some(control) => {
                        &&& answer is Success ==> opened
                        &&& opened ==> still_enabled && session.protocol == PeerProtocol::Native
                            && session.data_tx.offers().len() == 0 && was_offered(
                            Seq::empty(),
                            session.control_tx.offers(),
                            control,
                            answer is Success,
                        ) && got_link(
                            *old(inbound),
                            *final(inbound),
                            peer_id,
                            PeerProtocol::Native,
                            None,
                        )
                        &&& !opened ==> got_no_link(*old(inbound), *final(inbound))
                    },
                    None => {
                        &&& !opened && answer is Success
                        &&& *final(inbound) == *old(inbound)
                    },
                },
            }
        }),
{
    let before = *old(inbound);
    let after = *final(inbound);
    let reaped = choose|reaped: PeripheralModel<R, C, D, Ch>| #[trigger]
        old(state)@.reaps(reaped, None) && reaped.takes_write(
            final(state)@,
            answer,
            still_enabled,
            peer_id,
            role,
            value,
            before,
            after,
            decode,
            open,
        );
    assert(!reaped.sessions.dom().contains(peer_id));
    assert(reaped.sessions.dom().subset_of(old(state)@.sessions.dom()));
    vstd::set_lib::lemma_len_subset(reaped.sessions.dom(), old(state)@.sessions.dom());
    match role {
        Some(CharacteristicRole::Data) => {},
        Some(CharacteristicRole::ColumbaRx) => {
            if value@.len() == 16 {
                let identity = choose|identity: BleIdentity|
                    {
                        &&& identity.0@ == value@
                        &&& #[trigger] reaped.tries_to_open(
                            final(state)@,
                            still_enabled,
                            peer_id,
                            InboundProfile::Columba(identity),
                            before,
                            after,
                            open,
                            answer is Success,
                        )
                    };
                lemma_opened(
                    reaped,
                    final(state)@,
                    still_enabled,
                    peer_id,
                    InboundProfile::Columba(identity),
                    before,
                    after,
                    open,
                    answer is Success,
                );
            }
        },
        _ => {
            if let Some(control) = read(value@) {
                assert(reaped.opens_with_control(
                    final(state)@,
                    answer,
                    still_enabled,
                    peer_id,
                    control,
                    before,
                    after,
                    open,
                ));
                let (accepted, opened) = choose|
                    accepted: bool,
                    opened: PeripheralModel<R, C, D, Ch>,
                |
                    {
                        &&& #[trigger] reaped.tries_to_open(
                            opened,
                            still_enabled,
                            peer_id,
                            InboundProfile::Native,
                            before,
                            after,
                            open,
                            accepted,
                        )
                        &&& if accepted {
                            opened.takes_control(
                                final(state)@,
                                peer_id,
                                control,
                                answer is Success,
                            )
                        } else {
                            final(state)@ == opened && answer is InsufficientResources
                        }
                    };
                lemma_opened(
                    reaped,
                    opened,
                    still_enabled,
                    peer_id,
                    InboundProfile::Native,
                    before,
                    after,
                    open,
                    accepted,
                );
                if accepted {
                    let session = final(state)@.sessions[peer_id];
                    let message = Offer { value: control, taken: answer is Success };
                    assert(session.control_tx.offers() =~= seq![message]);
                    assert(session.control_tx.offers().drop_last() =~= Seq::empty());
                    assert(session.data_tx.offers() =~= Seq::empty());
                }
            }
        },
    }
}

/// Opening a session for a peer without one.
proof fn lemma_opened<
    R,
    C,
    D: GattInbox,
    Ch: L2capChannel,
    E,
    O: FnOnce() -> OpenedLink<R, C, D, E>,
>(
    state: PeripheralModel<R, C, D, Ch>,
    opened: PeripheralModel<R, C, D, Ch>,
    radio_enabled: bool,
    peer_id: CoreBluetoothPeerId,
    profile: InboundProfile,
    before: BoundedQueue<InboundLink<E>>,
    after: BoundedQueue<InboundLink<E>>,
    open: O,
    accepted: bool,
)
    requires
        !state.sessions.dom().contains(peer_id),
        state.sessions.dom().finite(),
        state.tries_to_open(
            opened,
            radio_enabled,
            peer_id,
            profile,
            before,
            after,
            open,
            accepted,
        ),
    ensures
        opened.sessions.dom().contains(peer_id) <==> accepted,
        accepted ==> radio_enabled,
        accepted ==> opened.sessions[peer_id].protocol == match profile {
            InboundProfile::Native => PeerProtocol::Native,
            InboundProfile::Columba(_) => PeerProtocol::Columba,
        },
        accepted ==> opened.sessions[peer_id].control_tx.offers().len() == 0,
        accepted ==> opened.sessions[peer_id].data_tx.offers().len() == 0,
        accepted ==> match profile {
            InboundProfile::Native => got_link(before, after, peer_id, PeerProtocol::Native, None),
            InboundProfile::Columba(identity) => got_link(
                before,
                after,
                peer_id,
                PeerProtocol::Columba,
                Some(identity.0@),
            ),
        },
        !accepted ==> got_no_link(before, after),
        radio_enabled && state.sessions.dom().len() < state.session_capacity
            ==> after.offers().len() == before.offers().len() + 1,
{
    if radio_enabled {
        let reaped = choose|reaped: PeripheralModel<R, C, D, Ch>| #[trigger]
            state.reaps(reaped, None) && reaped.opens(
                opened,
                peer_id,
                profile,
                before,
                after,
                open,
                accepted,
            );
        assert(reaped.sessions.dom().subset_of(state.sessions.dom()));
        vstd::set_lib::lemma_len_subset(reaped.sessions.dom(), state.sessions.dom());
        reaped.law_links_and_sessions_go_together(
            opened,
            peer_id,
            profile,
            before,
            after,
            open,
            accepted,
        );
        if accepted {
            let link = choose|link: InboundLink<E>|
                {
                    &&& #[trigger] link.leads_to(peer_id, profile)
                    &&& ingress::taken_values(after.offers()) == ingress::taken_values(
                        before.offers(),
                    ).push(link)
                };
            assert(ingress::taken_values(after.offers()).drop_last() =~= ingress::taken_values(
                before.offers(),
            ));
        }
    }
}

/// With the radio off nothing is written, opened, admitted or awaited.
pub proof fn law_nothing_happens_with_the_radio_off<
    R,
    C,
    D: GattInbox,
    Ch: L2capChannel,
    E,
    G: Fn(&Vec<u8>) -> Option<C>,
    O: FnOnce() -> OpenedLink<R, C, D, E>,
>(
    state: &mut PeripheralState<R, C, D, Ch>,
    still_enabled: bool,
    peer_id: CoreBluetoothPeerId,
    role: Option<CharacteristicRole>,
    value: Option<Vec<u8>>,
    inbound: &mut BoundedQueue<InboundLink<E>>,
    decode: G,
    open: O,
    answer: AttAnswer,
)
    requires
        call_ensures(
            PeripheralState::<R, C, D, Ch>::did_receive_write::<E, G, O>,
            (state, false, still_enabled, peer_id, role, value, inbound, decode, open),
            answer,
        ),
    ensures
        answer is InsufficientResources,
        final(state)@ == old(state)@,
        *final(inbound) == *old(inbound),
{
}

/// A notification never carries more than the peer takes, nor more than the interface, and always
/// something behind the header of a fragment. Within these bounds it carries all that the peer
/// takes.
pub proof fn law_notification_length(
    maximum_update: usize,
    fragment_header_len: usize,
    hw_mtu: usize,
    mtu: usize,
)
    requires
        fragment_header_len < hw_mtu,
        call_ensures(peripheral::gatt_mtu, (maximum_update, fragment_header_len, hw_mtu), mtu),
    ensures
        fragment_header_len < mtu <= hw_mtu,
        fragment_header_len < maximum_update ==> mtu <= maximum_update,
        fragment_header_len < maximum_update <= hw_mtu ==> mtu == maximum_update,
        maximum_update > hw_mtu ==> mtu == hw_mtu,
        maximum_update <= fragment_header_len ==> mtu == fragment_header_len + 1,
{
}

/// A channel is admitted exactly where the radio is on, it names its peer, and that peer has
/// somebody waiting, or room in what is kept for it, or a session and a free entry. Otherwise it is
/// said which of these fails.
pub proof fn law_channel_admission<R, C, D: GattInbox, Ch: L2capChannel>(
    state: &mut PeripheralState<R, C, D, Ch>,
    radio_enabled: bool,
    peer: Option<CoreBluetoothPeerId>,
    admitted: Result<CoreBluetoothPeerId, L2capRefusal>,
)
    requires
        call_ensures(
            PeripheralState::<R, C, D, Ch>::admit_l2cap,
            (state, radio_enabled, peer),
            admitted,
        ),
    ensures
        admitted == Err::<CoreBluetoothPeerId, L2capRefusal>(L2capRefusal::RadioOff)
            <==> !radio_enabled,
        admitted == Err::<CoreBluetoothPeerId, L2capRefusal>(L2capRefusal::NoPeer)
            <==> radio_enabled && peer is None,
        radio_enabled ==> (peer matches Some(peer_id) ==> {
            let after = final(state)@;
            let waits = after.pending.dom().contains(peer_id);
            let entry = after.pending[peer_id]@;
            let has_room = entry.waiters.len() > 0 || entry.channels.len() < entry.channel_capacity;
            let knows = after.sessions.dom().contains(peer_id);
            let free = after.pending.dom().len() < after.pending_capacity;
            &&& admitted matches Ok(named) ==> named == peer_id
            &&& admitted is Ok <==> (waits && has_room) || (!waits && knows && free)
            &&& admitted == Err::<CoreBluetoothPeerId, L2capRefusal>(L2capRefusal::PeerFull)
                <==> waits && !has_room
            &&& admitted == Err::<CoreBluetoothPeerId, L2capRefusal>(L2capRefusal::UnknownPeer)
                <==> !waits && !knows
            &&& admitted == Err::<CoreBluetoothPeerId, L2capRefusal>(L2capRefusal::Full)
                <==> !waits && knows && !free
            &&& has_live_session(old(state)@, peer_id) ==> knows
        }),
{
}

/// Nobody of those who wait has given up, and no channel that is kept is closed.
pub open spec fn is_live<Ch: L2capChannel>(entry: PendingModel<Ch>) -> bool {
    &&& forall|i: int|
        0 <= i < entry.waiters.len() ==> !ingress::asked_gone(#[trigger] entry.waiters[i], true)
    &&& forall|i: int|
        0 <= i < entry.channels.len() ==> !call_ensures(
            Ch::is_closed,
            (&#[trigger] entry.channels[i],),
            true,
        )
}

proof fn lemma_nothing_closed<A>(
    before: Seq<A>,
    after: Seq<A>,
    says: spec_fn(A, bool) -> bool,
)
    requires
        pending::drops_closed(before, after, says),
        forall|i: int| 0 <= i < before.len() ==> !says(#[trigger] before[i], true),
    ensures
        after == before,
{
    let keep = choose|keep: Seq<bool>| #[trigger]
        pending::judges(before, says, keep) && after == pending::selected(before, keep);
    assert forall|i: int| 0 <= i < before.len() implies #[trigger] keep[i] by {
        assert(says(before[i], !keep[i]));
        if !keep[i] {
            assert(!says(before[i], true));
        }
    }
    lemma_all_selected(before, keep);
}

proof fn lemma_all_selected<A>(items: Seq<A>, keep: Seq<bool>)
    requires
        forall|i: int| 0 <= i < items.len() ==> #[trigger] keep[i],
    ensures
        pending::selected(items, keep) == items,
    decreases items.len(),
{
    if items.len() > 0 {
        lemma_all_selected(items.drop_last(), keep);
        assert(keep[items.len() - 1]);
        assert(items.drop_last().push(items.last()) =~= items);
    }
}

proof fn lemma_live_stays<Ch: L2capChannel>(entry: PendingModel<Ch>, reaped: PendingModel<Ch>)
    requires
        is_live(entry),
        entry.reaps(reaped),
    ensures
        reaped == entry,
{
    lemma_nothing_closed(entry.waiters, reaped.waiters, pending::says_gone());
    lemma_nothing_closed(entry.channels, reaped.channels, pending::says_closed());
}

/// A channel that comes in goes to whoever has waited longest, who waits no more; where nobody
/// waits it is kept behind those that came before, and only where that many are kept already is it
/// refused.
pub proof fn law_channel_goes_to_the_first_waiter<Ch: L2capChannel>(
    entry: &mut PendingL2cap<Ch>,
    channel: Ch,
    taken: bool,
)
    requires
        call_ensures(PendingL2cap::<Ch>::deliver, (entry, channel), taken),
        is_live(old(entry)@),
    ensures
        ({
            let before = old(entry)@;
            let after = final(entry)@;
            if before.waiters.len() > 0 {
                &&& taken
                &&& pending::hands(before.waiters[0], channel)
                &&& after.waiters.len() == before.waiters.len() - 1
                &&& forall|i: int|
                    0 <= i < after.waiters.len() ==> #[trigger] after.waiters[i]
                        == before.waiters[i + 1]
                &&& after.channels == before.channels
            } else {
                &&& after.waiters.len() == 0
                &&& taken <==> before.channels.len() < before.channel_capacity
                &&& taken ==> after.channels.len() == before.channels.len() + 1
                    && after.channels.drop_last() == before.channels && after.channels.last()
                    == channel
                &&& !taken ==> after.channels == before.channels
            }
        }),
{
    let reaped = choose|reaped: PendingModel<Ch>| #[trigger]
        old(entry)@.reaps(reaped) && reaped.delivers(final(entry)@, channel, taken);
    lemma_live_stays(old(entry)@, reaped);
    if reaped.waiters.len() == 0 && taken {
        assert(final(entry)@.channels.drop_last() =~= reaped.channels);
    }
}

/// Somebody who asks for a channel gets the one that was kept longest, which is kept no more; where
/// none is kept they wait behind those who asked before, and only where that many wait already are
/// they refused.
pub proof fn law_waiter_gets_the_first_channel<Ch: L2capChannel>(
    entry: &mut PendingL2cap<Ch>,
    waiter: oneshot::Sender<Ch>,
    armed: bool,
)
    requires
        call_ensures(PendingL2cap::<Ch>::arm, (entry, waiter), armed),
        is_live(old(entry)@),
    ensures
        ({
            let before = old(entry)@;
            let after = final(entry)@;
            if before.channels.len() > 0 {
                &&& armed
                &&& pending::hands(waiter, before.channels[0])
                &&& after.channels.len() == before.channels.len() - 1
                &&& forall|i: int|
                    0 <= i < after.channels.len() ==> #[trigger] after.channels[i]
                        == before.channels[i + 1]
                &&& after.waiters == before.waiters
            } else {
                &&& after.channels.len() == 0
                &&& armed <==> before.waiters.len() < 4
                &&& armed ==> after.waiters.len() == before.waiters.len() + 1
                    && after.waiters.drop_last() == before.waiters && after.waiters.last()
                    == waiter
                &&& !armed ==> after.waiters == before.waiters
            }
        }),
{
    let reaped = choose|reaped: PendingModel<Ch>| #[trigger]
        old(entry)@.reaps(reaped) && reaped.arms(final(entry)@, waiter, armed);
    lemma_live_stays(old(entry)@, reaped);
    if reaped.channels.len() == 0 && armed {
        assert(final(entry)@.waiters.drop_last() =~= reaped.waiters);
    }
}

/// A channel that is delivered for a peer for whom nothing is pending is kept, and whoever asks for
/// it next gets it, whereupon nothing is pending for the peer. A channel without streams changes
/// nothing. Other peers' entries stay as they are.
pub proof fn law_kept_channel_is_handed_out<R, C, D: GattInbox, Ch: L2capChannel>(
    state: &mut PeripheralState<R, C, D, Ch>,
    peer_id: CoreBluetoothPeerId,
    wired: Option<Ch>,
    outcome: L2capOutcome,
    other: CoreBluetoothPeerId,
)
    requires
        old(state).wf(),
        call_ensures(
            PeripheralState::<R, C, D, Ch>::deliver_l2cap,
            (state, peer_id, wired),
            outcome,
        ),
        !old(state)@.pending.dom().contains(peer_id),
        old(state)@.channel_capacity > 0,
    ensures
        outcome is NoStreams <==> wired is None,
        wired is None ==> final(state)@ == old(state)@,
        wired matches Some(channel) ==> {
            &&& outcome is Delivered
            &&& final(state)@.pending.dom().contains(peer_id)
            &&& final(state)@.pending[peer_id]@.waiters.len() == 0
            &&& final(state)@.pending[peer_id]@.channels == seq![channel]
        },
        final(state)@.sessions == old(state)@.sessions,
        other != peer_id ==> (final(state)@.pending.dom().contains(other) <==> old(
            state)@.pending.dom().contains(other)) && final(state)@.pending[other] == old(
            state)@.pending[other],
{
    if let Some(channel) = wired {
        let start = PendingModel::<Ch>::empty(old(state)@.channel_capacity);
        let after = peripheral::held(final(state)@.pending, peer_id);
        let taken = outcome is Delivered;
        assert(pending::delivers_entry(
            None,
            after,
            old(state)@.channel_capacity,
            channel,
            taken,
        ));
        let (reaped, left) = choose|reaped: PendingModel<Ch>, left: PendingModel<Ch>|
            {
                &&& #[trigger] pending::entry_model(
                    None,
                    old(state)@.channel_capacity,
                ).reaps(reaped)
                &&& #[trigger] reaped.delivers(left, channel, taken)
                &&& pending::leaves(left, after)
            };
        lemma_live_stays(start, reaped);
        assert(left.channels =~= seq![channel]);
    }
}

/// The service and the channel are each asked for once, as soon as the manager is powered, and
/// never again; a service that was restored is not asked for at all.
pub proof fn law_published_once<R, C, D, Ch>(
    state: &mut PeripheralState<R, C, D, Ch>,
    powered_on: bool,
    first: PublicationRequest,
    later: &mut PeripheralState<R, C, D, Ch>,
    powered_again: bool,
    second: PublicationRequest,
)
    requires
        call_ensures(
            PeripheralState::<R, C, D, Ch>::did_update_state,
            (state, powered_on),
            first,
        ),
        *old(later) == *final(state),
        call_ensures(
            PeripheralState::<R, C, D, Ch>::did_update_state,
            (later, powered_again),
            second,
        ),
    ensures
        !(first.add_service && second.add_service),
        !(first.publish_l2cap && second.publish_l2cap),
        !powered_on ==> !first.add_service && !first.publish_l2cap,
        !old(state)@.service_requested && (powered_on || powered_again) ==> first.add_service
            || second.add_service,
        !old(state)@.l2cap_requested && (powered_on || powered_again) ==> first.publish_l2cap
            || second.publish_l2cap,
        old(state)@.service_requested ==> !first.add_service && !second.add_service,
        old(state)@.l2cap_requested ==> !first.publish_l2cap && !second.publish_l2cap,
        final(later)@.sessions == old(state)@.sessions,
        final(later)@.pending == old(state)@.pending,
{
}

/// Switching the radio off leaves no session and nothing pending, and does not publish anything a
/// second time; switching it on changes nothing.
pub proof fn law_radio_off_releases_everything<R, C, D, Ch>(
    state: &mut PeripheralState<R, C, D, Ch>,
    enabled: bool,
    peer_id: CoreBluetoothPeerId,
)
    requires
        call_ensures(PeripheralState::<R, C, D, Ch>::set_radio_enabled, (state, enabled), ()),
    ensures
        enabled ==> final(state)@ == old(state)@,
        !enabled ==> !final(state)@.sessions.dom().contains(peer_id) && !final(
            state)@.pending.dom().contains(peer_id),
        final(state)@.service_requested == old(state)@.service_requested,
        final(state)@.l2cap_requested == old(state)@.l2cap_requested,
        final(state)@.session_capacity == old(state)@.session_capacity,
        final(state)@.pending_capacity == old(state)@.pending_capacity,
{
}

/// A peer counts as connected inbound while the owner of its session is there, and never with the
/// radio off; nobody counts for a peer that shares its address.
pub proof fn law_inbound_session_is_exact<R, C, D: GattInbox, Ch: L2capChannel>(
    state: &mut PeripheralState<R, C, D, Ch>,
    radio_enabled: bool,
    peer_id: CoreBluetoothPeerId,
    connected: bool,
)
    requires
        call_ensures(
            PeripheralState::<R, C, D, Ch>::has_inbound_session,
            (state, radio_enabled, peer_id),
            connected,
        ),
    ensures
        connected ==> radio_enabled && old(state)@.sessions.dom().contains(peer_id)
            && ingress::reports_closed(old(state)@.sessions[peer_id].data_tx.inbox(), false),
        radio_enabled && has_live_session(old(state)@, peer_id) ==> connected,
{
}

/// A peer at another address keeps its session when the link to one is closed, and what is pending
/// for it is not given to somebody else.
pub proof fn law_closed_peer_is_cleared_alone<R, C, D: GattInbox, Ch: L2capChannel>(
    state: &mut PeripheralState<R, C, D, Ch>,
    address: BleAddress,
    peer_id: CoreBluetoothPeerId,
)
    requires
        call_ensures(PeripheralState::<R, C, D, Ch>::clear_closed_peer, (state, address), ()),
        old(state)@.sessions.dom().contains(peer_id),
    ensures
        peer_id.spec_address() != address ==> final(state)@.sessions.dom().contains(peer_id),
        final(state)@.sessions.dom().contains(peer_id) ==> final(state)@.sessions[peer_id] == old(
            state)@.sessions[peer_id],
        !final(state)@.sessions.dom().contains(peer_id) ==> ingress::reports_closed(
            old(state)@.sessions[peer_id].data_tx.inbox(),
            true,
        ) && !final(state)@.pending.dom().contains(peer_id),
{
    if !final(state)@.sessions.dom().contains(peer_id) {
        let rest = old(state)@.pending_with(final(state)@.sessions);
        assert(!rest.dom().contains(peer_id));
    }
}

/// The session and the link are the two ends of what was opened, and the link carries as much at
/// once as the peer takes, within what the interface carries and at least one byte behind the
/// header.
pub open spec fn are_both_ends<R, C, D, Ch, E>(
    state: PeripheralModel<R, C, D, Ch>,
    peer_id: CoreBluetoothPeerId,
    link: InboundLink<E>,
    opened: OpenedLink<R, C, D, E>,
) -> bool {
    let session = state.sessions[peer_id];
    &&& session.central == opened.central
    &&& session.control_tx.sender() == opened.control_tx
    &&& session.data_tx.inbox() == opened.data_tx
    &&& link.ends == opened.ends
    &&& 5 < link.gatt_mtu <= state.hw_mtu
    &&& 5 < opened.maximum_update <= state.hw_mtu ==> link.gatt_mtu == opened.maximum_update
    &&& opened.maximum_update > state.hw_mtu ==> link.gatt_mtu == state.hw_mtu
    &&& opened.maximum_update <= 5 ==> link.gatt_mtu == 6
}

/// An inbound session that is opened is one end of what was opened for it, and the link that the
/// host gets is the other.
pub proof fn law_opened_link<
    R,
    C,
    D: GattInbox,
    Ch: L2capChannel,
    E,
    O: FnOnce() -> OpenedLink<R, C, D, E>,
>(
    state: &mut PeripheralState<R, C, D, Ch>,
    radio_enabled: bool,
    peer_id: CoreBluetoothPeerId,
    profile: InboundProfile,
    inbound: &mut BoundedQueue<InboundLink<E>>,
    open: O,
    stays: bool,
)
    requires
        old(state).wf(),
        call_ensures(
            PeripheralState::<R, C, D, Ch>::open_inbound::<E, O>,
            (state, radio_enabled, peer_id, profile, inbound, open),
            stays,
        ),
    ensures
        stays ==> {
            &&& radio_enabled
            &&& final(state)@.sessions.dom().contains(peer_id)
            &&& final(inbound).offers().len() == old(inbound).offers().len() + 1
            &&& final(inbound).offers().last().taken
            &&& exists|opened: OpenedLink<R, C, D, E>| #[trigger]
                call_ensures(open, (), opened) && are_both_ends(
                    final(state)@,
                    peer_id,
                    final(inbound).offers().last().value,
                    opened,
                )
        },
{
    if stays {
        let before = *old(inbound);
        let after = *final(inbound);
        let reaped = choose|reaped: PeripheralModel<R, C, D, Ch>| #[trigger]
            old(state)@.reaps(reaped, None) && reaped.opens(
                final(state)@,
                peer_id,
                profile,
                before,
                after,
                open,
                stays,
            );
        let (opened, session, link, outcome) = choose|
            opened: OpenedLink<R, C, D, E>,
            session: PeripheralPeerSession<R, C, D>,
            link: InboundLink<E>,
            outcome: BoundedIngress<InboundLink<E>>,
        |
            {
                &&& #[trigger] call_ensures(open, (), opened)
                &&& #[trigger] session.is_new(
                    profile,
                    opened.central,
                    opened.control_tx,
                    opened.data_tx,
                )
                &&& reaped.is_link(link, peer_id, profile, opened)
                &&& #[trigger] ingress::offered(before.sender(), link, outcome)
                &&& stays == (outcome is Accepted)
                &&& after.extends(before, seq![Offer { value: link, taken: stays }])
                &&& final(state)@ == if stays {
                    reaped.with_session(peer_id, session)
                } else {
                    reaped.with_session(peer_id, session).cleared(peer_id)
                }
            };
        assert(after.offers().last().value == link);
        assert(are_both_ends(final(state)@, peer_id, link, opened));
    }
}

/// While there is room for a session, the radio is on and the peer has none, its link is offered to
/// the host, once: it is for the host alone to turn it down. Without room nothing is offered, and no
/// more sessions are kept than there is room for.
pub proof fn law_room_for_a_session<
    R,
    C,
    D: GattInbox,
    Ch: L2capChannel,
    E,
    O: FnOnce() -> OpenedLink<R, C, D, E>,
>(
    state: &mut PeripheralState<R, C, D, Ch>,
    peer_id: CoreBluetoothPeerId,
    profile: InboundProfile,
    inbound: &mut BoundedQueue<InboundLink<E>>,
    open: O,
    stays: bool,
)
    requires
        old(state).wf(),
        call_ensures(
            PeripheralState::<R, C, D, Ch>::open_inbound::<E, O>,
            (state, true, peer_id, profile, inbound, open),
            stays,
        ),
    ensures
        old(state)@.sessions.dom().len() < old(state)@.session_capacity ==> {
            &&& final(inbound).offers().len() == old(inbound).offers().len() + 1
            &&& final(inbound).offers().last().taken == stays
            &&& final(inbound).offers().last().value.peer_id == peer_id
        },
        final(inbound).offers().len() == old(inbound).offers().len() ==> !stays
            && final(state)@.sessions.dom().len() >= final(state)@.session_capacity,
        final(state)@.sessions.dom().len() <= final(state)@.session_capacity,
{
    let before = *old(inbound);
    let after = *final(inbound);
    let reaped = choose|reaped: PeripheralModel<R, C, D, Ch>| #[trigger]
        old(state)@.reaps(reaped, None) && reaped.opens(
            final(state)@,
            peer_id,
            profile,
            before,
            after,
            open,
            stays,
        );
    assert(reaped.sessions.dom().subset_of(old(state)@.sessions.dom()));
    vstd::set_lib::lemma_len_subset(reaped.sessions.dom(), old(state)@.sessions.dom());
}

/// Somebody who asks for a channel is refused exactly where the radio is off, or nothing is pending
/// for the peer and no entry is left for it, or as many wait for that peer as may. Other peers'
/// sessions stay as they are.
pub proof fn law_waiter_is_refused_only_without_room<R, C, D: GattInbox, Ch: L2capChannel>(
    state: &mut PeripheralState<R, C, D, Ch>,
    radio_enabled: bool,
    peer_id: CoreBluetoothPeerId,
    waiter: oneshot::Sender<Ch>,
    armed: bool,
)
    requires
        old(state).wf(),
        call_ensures(
            PeripheralState::<R, C, D, Ch>::arm_pending_channel,
            (state, radio_enabled, peer_id, waiter),
            armed,
        ),
    ensures
        !radio_enabled ==> !armed && final(state)@ == old(state)@,
        !armed && radio_enabled ==> {
            ||| !final(state)@.pending.dom().contains(peer_id) && final(state)@.pending.dom().len()
                >= final(state)@.pending_capacity
            ||| final(state)@.pending.dom().contains(peer_id) && final(
                state)@.pending[peer_id]@.waiters.len() >= 4 && final(
                state)@.pending[peer_id]@.channels.len() == 0
        },
        radio_enabled && !old(state)@.pending.dom().contains(peer_id) && old(
            state)@.pending.dom().len() < old(state)@.pending_capacity ==> {
            &&& armed
            &&& final(state)@.pending.dom().contains(peer_id)
            &&& final(state)@.pending[peer_id]@.waiters == seq![waiter]
            &&& final(state)@.pending[peer_id]@.channels.len() == 0
        },
{
    if radio_enabled {
        let reaped = choose|reaped: PeripheralModel<R, C, D, Ch>| #[trigger]
            old(state)@.reaps(reaped, None) && reaped.takes_waiter(
                final(state)@,
                peer_id,
                waiter,
                armed,
            );
        let kept = old(state)@.pending_with(reaped.sessions);
        assert(reaped.pending.dom().subset_of(old(state)@.pending.dom())) by {
            assert forall|other: CoreBluetoothPeerId| #[trigger]
                reaped.pending.dom().contains(other) implies old(state)@.pending.dom().contains(
                other,
            ) by {
                assert(kept.dom().contains(other));
            }
        }
        vstd::set_lib::lemma_len_subset(reaped.pending.dom(), old(state)@.pending.dom());
        if reaped.pending.dom().contains(peer_id) || reaped.pending.dom().len()
            < reaped.pending_capacity {
            let entry = peripheral::held(reaped.pending, peer_id);
            let after = peripheral::held(final(state)@.pending, peer_id);
            let (settled, left) = choose|settled: PendingModel<Ch>, left: PendingModel<Ch>|
                {
                    &&& #[trigger] pending::entry_model(entry, reaped.channel_capacity).reaps(
                        settled,
                    )
                    &&& #[trigger] settled.arms(left, waiter, armed)
                    &&& pending::leaves(left, after)
                };
            if !reaped.pending.dom().contains(peer_id) {
                lemma_live_stays(
                    pending::entry_model(entry, reaped.channel_capacity),
                    settled,
                );
                assert(left.waiters =~= seq![waiter]);
            }
        }
    }
}

/// A write without a value is answered as done and changes nothing.
pub proof fn law_write_without_a_value<
    R,
    C,
    D: GattInbox,
    Ch: L2capChannel,
    E,
    G: Fn(&Vec<u8>) -> Option<C>,
    O: FnOnce() -> OpenedLink<R, C, D, E>,
>(
    state: &mut PeripheralState<R, C, D, Ch>,
    still_enabled: bool,
    peer_id: CoreBluetoothPeerId,
    role: Option<CharacteristicRole>,
    inbound: &mut BoundedQueue<InboundLink<E>>,
    decode: G,
    open: O,
    answer: AttAnswer,
)
    requires
        call_ensures(
            PeripheralState::<R, C, D, Ch>::did_receive_write::<E, G, O>,
            (state, true, still_enabled, peer_id, role, None, inbound, decode, open),
            answer,
        ),
    ensures
        answer is Success,
        final(state)@ == old(state)@,
        *final(inbound) == *old(inbound),
{
}

/// The peer has an inbound session whose owner is gone.
pub open spec fn has_orphaned_session<R, C, D: GattInbox, Ch>(
    state: PeripheralModel<R, C, D, Ch>,
    peer_id: CoreBluetoothPeerId,
) -> bool {
    &&& state.sessions.dom().contains(peer_id)
    &&& !ingress::reports_closed(state.sessions[peer_id].data_tx.inbox(), false)
}

/// A session whose owner is gone is gone once its peer is notified, unsubscribes, opens a channel,
/// is waited for or is looked up, and nobody is notified by it. Nothing stays pending for its peer
/// but what was asked for since.
pub proof fn law_orphaned_session_is_reaped<R: Clone, C, D: GattInbox, Ch: L2capChannel>(
    peer_id: CoreBluetoothPeerId,
    notifying: &mut PeripheralState<R, C, D, Ch>,
    target: ListenerCharacteristic,
    notified: Option<(R, CharacteristicRole)>,
    leaving: &mut PeripheralState<R, C, D, Ch>,
    role: Option<CharacteristicRole>,
    ended: bool,
    admitting: &mut PeripheralState<R, C, D, Ch>,
    admitted: Result<CoreBluetoothPeerId, L2capRefusal>,
    arming: &mut PeripheralState<R, C, D, Ch>,
    waiter: oneshot::Sender<Ch>,
    armed: bool,
    looking: &mut PeripheralState<R, C, D, Ch>,
    connected: bool,
)
    requires
        has_orphaned_session(old(notifying)@, peer_id),
        call_ensures(
            PeripheralState::<R, C, D, Ch>::notify,
            (notifying, true, true, peer_id, target),
            notified,
        ),
        has_orphaned_session(old(leaving)@, peer_id),
        call_ensures(
            PeripheralState::<R, C, D, Ch>::did_unsubscribe,
            (leaving, peer_id, role),
            ended,
        ),
        has_orphaned_session(old(admitting)@, peer_id),
        call_ensures(
            PeripheralState::<R, C, D, Ch>::admit_l2cap,
            (admitting, true, Some(peer_id)),
            admitted,
        ),
        has_orphaned_session(old(arming)@, peer_id),
        call_ensures(
            PeripheralState::<R, C, D, Ch>::arm_pending_channel,
            (arming, true, peer_id, waiter),
            armed,
        ),
        has_orphaned_session(old(looking)@, peer_id),
        call_ensures(
            PeripheralState::<R, C, D, Ch>::has_inbound_session,
            (looking, true, peer_id),
            connected,
        ),
    ensures
        notified is None && !final(notifying)@.sessions.dom().contains(peer_id),
        !final(notifying)@.pending.dom().contains(peer_id),
        !ended && !final(leaving)@.sessions.dom().contains(peer_id),
        !final(leaving)@.pending.dom().contains(peer_id),
        admitted == Err::<CoreBluetoothPeerId, L2capRefusal>(L2capRefusal::UnknownPeer),
        !final(admitting)@.sessions.dom().contains(peer_id),
        !final(arming)@.sessions.dom().contains(peer_id),
        !connected && !final(looking)@.sessions.dom().contains(peer_id),
{
    lemma_orphan_goes(old(notifying)@, final(notifying)@, peer_id);
    lemma_orphan_goes(old(admitting)@, final(admitting)@, peer_id);
    lemma_orphan_goes(old(looking)@, final(looking)@, peer_id);
    let left = choose|reaped: PeripheralModel<R, C, D, Ch>| #[trigger]
        old(leaving)@.reaps(reaped, None) && ended == (reaped.sessions.dom().contains(peer_id)
            && Some(reaped.sessions[peer_id].protocol) == peripheral_events::unsubscribed_protocol(
            role,
        )) && final(leaving)@ == if ended {
            reaped.cleared(peer_id)
        } else {
            reaped
        };
    lemma_orphan_goes(old(leaving)@, left, peer_id);
    let rest = choose|reaped: PeripheralModel<R, C, D, Ch>| #[trigger]
        old(arming)@.reaps(reaped, None) && reaped.takes_waiter(
            final(arming)@,
            peer_id,
            waiter,
            armed,
        );
    lemma_orphan_goes(old(arming)@, rest, peer_id);
}

proof fn lemma_orphan_goes<R, C, D: GattInbox, Ch: L2capChannel>(
    before: PeripheralModel<R, C, D, Ch>,
    after: PeripheralModel<R, C, D, Ch>,
    peer_id: CoreBluetoothPeerId,
)
    requires
        before.reaps(after, None),
        has_orphaned_session(before, peer_id),
    ensures
        !after.sessions.dom().contains(peer_id),
        !after.pending.dom().contains(peer_id),
{
    let rest = before.pending_with(after.sessions);
    assert(!after.sessions.dom().contains(peer_id));
    assert(!rest.dom().contains(peer_id));
}

/// Whoever has given up waits no more, and a channel that is closed is not kept; whoever waits still
/// and whatever is open stays, in its order where nothing is dropped, and nobody is added.
pub proof fn law_closed_is_dropped<Ch: L2capChannel>(
    entry: &mut PendingL2cap<Ch>,
    waiter: oneshot::Sender<Ch>,
    channel: Ch,
)
    requires
        call_ensures(PendingL2cap::<Ch>::reap_closed, (entry,), ()),
    ensures
        !ingress::asked_gone(waiter, false) ==> !final(entry)@.waiters.contains(waiter),
        !ingress::asked_gone(waiter, true) && old(entry)@.waiters.contains(waiter) ==> final(
            entry)@.waiters.contains(waiter),
        final(entry)@.waiters.contains(waiter) ==> old(entry)@.waiters.contains(waiter),
        !call_ensures(Ch::is_closed, (&channel,), false) ==> !final(entry)@.channels.contains(
            channel,
        ),
        !call_ensures(Ch::is_closed, (&channel,), true) && old(entry)@.channels.contains(channel)
            ==> final(entry)@.channels.contains(channel),
        final(entry)@.channels.contains(channel) ==> old(entry)@.channels.contains(channel),
        is_live(old(entry)@) ==> final(entry)@ == old(entry)@,
{
    let before = old(entry)@;
    let after = final(entry)@;
    lemma_selected_one(before.waiters, after.waiters, pending::says_gone(), waiter);
    lemma_selected_one(before.channels, after.channels, pending::says_closed(), channel);
    if is_live(before) {
        lemma_live_stays(before, after);
    }
}

proof fn lemma_selected_one<A>(
    before: Seq<A>,
    after: Seq<A>,
    says: spec_fn(A, bool) -> bool,
    item: A,
)
    requires
        pending::drops_closed(before, after, says),
    ensures
        after.contains(item) ==> before.contains(item) && says(item, false),
        before.contains(item) && !says(item, true) ==> after.contains(item),
{
    let keep = choose|keep: Seq<bool>| #[trigger]
        pending::judges(before, says, keep) && after == pending::selected(before, keep);
    lemma_selected_has(before, keep, item);
    if after.contains(item) {
        let i = choose|i: int| 0 <= i < before.len() && #[trigger] before[i] == item && keep[i];
        assert(says(before[i], !keep[i]));
    }
    if before.contains(item) {
        let i = before.index_of(item);
        assert(says(before[i], !keep[i]));
    }
}

proof fn lemma_selected_has<A>(items: Seq<A>, keep: Seq<bool>, item: A)
    ensures
        pending::selected(items, keep).contains(item) <==> exists|i: int|
            0 <= i < items.len() && #[trigger] items[i] == item && keep[i],
    decreases items.len(),
{
    if items.len() > 0 {
        let earlier = items.drop_last();
        let last = items.len() - 1;
        let rest = pending::selected(earlier, keep);
        let all = pending::selected(items, keep);
        lemma_selected_has(earlier, keep, item);
        if all.contains(item) {
            let k = all.index_of(item);
            if k < rest.len() {
                assert(rest[k] == item);
                assert(rest.contains(item));
                let i = choose|i: int|
                    0 <= i < earlier.len() && #[trigger] earlier[i] == item && keep[i];
                assert(items[i] == item);
            } else {
                assert(items[last] == item);
            }
        }
        if exists|i: int| 0 <= i < items.len() && #[trigger] items[i] == item && keep[i] {
            let i = choose|i: int| 0 <= i < items.len() && #[trigger] items[i] == item && keep[i];
            if i < last {
                assert(earlier[i] == item);
                let k = rest.index_of(item);
                assert(all[k] == item);
            } else {
                assert(all[all.len() - 1] == item);
            }
        }
    }
}

/// Reaping leaves nobody waiting who has given up, keeps no channel that is closed, and keeps no
/// entry of which nothing is left.
pub proof fn law_reaped_entries<R, C, D: GattInbox, Ch: L2capChannel>(
    state: &mut PeripheralState<R, C, D, Ch>,
    address: Option<BleAddress>,
    peer_id: CoreBluetoothPeerId,
    waiter: oneshot::Sender<Ch>,
    channel: Ch,
)
    requires
        call_ensures(PeripheralState::<R, C, D, Ch>::reap, (state, address), ()),
        final(state)@.pending.dom().contains(peer_id),
    ensures
        old(state)@.pending.dom().contains(peer_id),
        !ingress::asked_gone(waiter, false) ==> !final(
            state)@.pending[peer_id]@.waiters.contains(waiter),
        !call_ensures(Ch::is_closed, (&channel,), false) ==> !final(
            state)@.pending[peer_id]@.channels.contains(channel),
        final(state)@.pending[peer_id]@.waiters.len() > 0 || final(
            state)@.pending[peer_id]@.channels.len() > 0,
{
    let kept = old(state)@.pending_with(final(state)@.sessions);
    assert(kept.dom().contains(peer_id));
    let entry = kept[peer_id];
    let after = peripheral::held(final(state)@.pending, peer_id);
    assert(pending::settles_to(entry, after));
    let reaped = choose|reaped: PendingModel<Ch>| #[trigger]
        entry@.reaps(reaped) && pending::leaves(reaped, after);
    lemma_selected_one(entry@.waiters, reaped.waiters, pending::says_gone(), waiter);
    lemma_selected_one(entry@.channels, reaped.channels, pending::says_closed(), channel);
}

/// A peripheral role starts with nothing held and nothing asked for, and with room for two sessions
/// for each peer and four in their handshake.
pub proof fn law_new_peripheral_role<R, C, D, Ch>(
    max_peers: usize,
    channel_capacity: usize,
    hw_mtu: usize,
    state: PeripheralState<R, C, D, Ch>,
)
    requires
        max_peers < 0x1000_0000,
        call_ensures(
            PeripheralState::<R, C, D, Ch>::new,
            (max_peers, channel_capacity, hw_mtu),
            state,
        ),
    ensures
        state@.session_capacity == 2 * max_peers + 4,
        state@.pending_capacity == 6 * max_peers + 4,
        state@.channel_capacity == channel_capacity,
        state@.hw_mtu == hw_mtu,
        state@.sessions.dom() =~= Set::<CoreBluetoothPeerId>::empty(),
        state@.pending.dom() =~= Set::<CoreBluetoothPeerId>::empty(),
        !state@.service_requested && !state@.l2cap_requested,
{
}

/// A service that was restored is not added again, while the listener is still to be published.
pub proof fn law_restored_service_is_not_added<R, C, D, Ch>(
    state: &mut PeripheralState<R, C, D, Ch>,
    later: &mut PeripheralState<R, C, D, Ch>,
    request: PublicationRequest,
)
    requires
        call_ensures(PeripheralState::<R, C, D, Ch>::service_restored, (state,), ()),
        *old(later) == *final(state),
        call_ensures(
            PeripheralState::<R, C, D, Ch>::did_update_state,
            (later, true),
            request,
        ),
    ensures
        !request.add_service,
        request.publish_l2cap <==> !old(state)@.l2cap_requested,
        final(state)@.sessions == old(state)@.sessions,
        final(state)@.pending == old(state)@.pending,
{
}

/// A cleared peer has neither a session nor anything pending, and nobody else loses anything, though
/// they share its address.
pub proof fn law_cleared_peer<R, C, D, Ch>(
    state: &mut PeripheralState<R, C, D, Ch>,
    peer_id: CoreBluetoothPeerId,
    other: CoreBluetoothPeerId,
)
    requires
        call_ensures(PeripheralState::<R, C, D, Ch>::clear_peer, (state, peer_id), ()),
    ensures
        !final(state)@.sessions.dom().contains(peer_id),
        !final(state)@.pending.dom().contains(peer_id),
        other != peer_id ==> {
            &&& final(state)@.sessions.dom().contains(other) <==> old(
                state)@.sessions.dom().contains(other)
            &&& final(state)@.sessions[other] == old(state)@.sessions[other]
            &&& final(state)@.pending.dom().contains(other) <==> old(
                state)@.pending.dom().contains(other)
            &&& final(state)@.pending[other] == old(state)@.pending[other]
        },
{
}

/// A channel of a peer for whom somebody waits is handed to whoever has waited longest, and the
/// others wait on.
pub proof fn law_delivered_channel_is_handed_out<R, C, D: GattInbox, Ch: L2capChannel>(
    state: &mut PeripheralState<R, C, D, Ch>,
    peer_id: CoreBluetoothPeerId,
    channel: Ch,
    outcome: L2capOutcome,
)
    requires
        old(state).wf(),
        call_ensures(
            PeripheralState::<R, C, D, Ch>::deliver_l2cap,
            (state, peer_id, Some(channel)),
            outcome,
        ),
        old(state)@.pending.dom().contains(peer_id),
        is_live(old(state)@.pending[peer_id]@),
        old(state)@.pending[peer_id]@.waiters.len() > 0,
    ensures
        outcome is Delivered,
        pending::hands(old(state)@.pending[peer_id]@.waiters[0], channel),
        ({
            let before = old(state)@.pending[peer_id]@.waiters;
            &&& final(state)@.pending.dom().contains(peer_id) <==> before.len() > 1
            &&& before.len() > 1 ==> final(state)@.pending[peer_id]@.waiters == before.skip(1)
        }),
        final(state)@.sessions == old(state)@.sessions,
{
    let entry = old(state)@.pending[peer_id];
    let after = peripheral::held(final(state)@.pending, peer_id);
    let taken = outcome is Delivered;
    let (reaped, left) = choose|reaped: PendingModel<Ch>, left: PendingModel<Ch>|
        {
            &&& #[trigger] pending::entry_model(
                Some(entry),
                old(state)@.channel_capacity,
            ).reaps(reaped)
            &&& #[trigger] reaped.delivers(left, channel, taken)
            &&& pending::leaves(left, after)
        };
    lemma_live_stays(entry@, reaped);
    assert(old(state)@.entry_wf(entry));
}

/// Somebody who asks for a channel of a peer is handed the one that was kept longest, where any is
/// kept, and the others are kept on.
pub proof fn law_asking_gets_the_kept_channel<R, C, D: GattInbox, Ch: L2capChannel>(
    state: &mut PeripheralState<R, C, D, Ch>,
    peer_id: CoreBluetoothPeerId,
    waiter: oneshot::Sender<Ch>,
    armed: bool,
)
    requires
        old(state).wf(),
        call_ensures(
            PeripheralState::<R, C, D, Ch>::arm_pending_channel,
            (state, true, peer_id, waiter),
            armed,
        ),
        has_live_session(old(state)@, peer_id),
        old(state)@.pending.dom().contains(peer_id),
        is_live(old(state)@.pending[peer_id]@),
        old(state)@.pending[peer_id]@.channels.len() > 0,
    ensures
        armed,
        pending::hands(waiter, old(state)@.pending[peer_id]@.channels[0]),
        ({
            let before = old(state)@.pending[peer_id]@.channels;
            &&& final(state)@.pending.dom().contains(peer_id) <==> before.len() > 1
            &&& before.len() > 1 ==> final(state)@.pending[peer_id]@.channels == before.skip(1)
        }),
{
    let rest = choose|reaped: PeripheralModel<R, C, D, Ch>| #[trigger]
        old(state)@.reaps(reaped, None) && reaped.takes_waiter(
            final(state)@,
            peer_id,
            waiter,
            armed,
        );
    let entry = old(state)@.pending[peer_id];
    assert(old(state)@.entry_wf(entry));
    let kept = old(state)@.pending_with(rest.sessions);
    assert(rest.sessions.dom().contains(peer_id));
    assert(kept.dom().contains(peer_id));
    let settled = choose|settled: PendingModel<Ch>| #[trigger]
        entry@.reaps(settled) && pending::leaves(settled, peripheral::held(rest.pending, peer_id));
    lemma_live_stays(entry@, settled);
    assert(rest.pending.dom().contains(peer_id));
    assert(rest.pending[peer_id]@ == entry@);
    let after = peripheral::held(final(state)@.pending, peer_id);
    let (reaped, left) = choose|reaped: PendingModel<Ch>, left: PendingModel<Ch>|
        {
            &&& #[trigger] pending::entry_model(
                peripheral::held(rest.pending, peer_id),
                rest.channel_capacity,
            ).reaps(reaped)
            &&& #[trigger] reaped.arms(left, waiter, armed)
            &&& pending::leaves(left, after)
        };
    lemma_live_stays(entry@, reaped);
}

} // verus!
