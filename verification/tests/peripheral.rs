use bluetooth_auto::ingress::{BoundedIngress, BoundedQueue};
use bluetooth_auto::peer::{BleAddress, BleIdentity, CoreBluetoothPeerId, PeerProtocol};
use bluetooth_auto::peer_map::PeerMap;
use bluetooth_auto::pending::{L2capChannel, PendingL2cap};
use bluetooth_auto::peripheral::{
    can_arm_l2cap, can_open_inbound, gatt_mtu, l2cap_delivery_admission, pending_l2cap_capacity,
    peripheral_session_capacity, reap_closed_sessions, reap_stale_pending_l2cap, InboundProfile,
    L2capDeliveryAdmission, PeripheralState,
};
use bluetooth_auto::peripheral_events::{
    AttAnswer, InboundLink, L2capOutcome, L2capRefusal, ListenerCharacteristic, OpenedLink,
};
use bluetooth_auto::profile::CharacteristicRole;
use bluetooth_auto::radio::central_peripheral_capacity;
use tokio::sync::{mpsc, oneshot};

fn peer_id(value: u16) -> CoreBluetoothPeerId {
    let mut bytes = [0; 16];
    bytes[..2].copy_from_slice(&value.to_le_bytes());
    CoreBluetoothPeerId(bytes)
}

fn prefixed_peer_id(prefix: u8, suffix: u8) -> CoreBluetoothPeerId {
    let mut bytes = [prefix; 16];
    bytes[15] = suffix;
    CoreBluetoothPeerId(bytes)
}

fn map_of<V, const N: usize>(entries: [(CoreBluetoothPeerId, V); N]) -> PeerMap<V> {
    let mut map = PeerMap::new();
    for (peer_id, value) in entries {
        map.insert(peer_id, value);
    }
    map
}

type Inbox = mpsc::Sender<Vec<u8>>;
type State = PeripheralState<&'static str, u8, Inbox, Channel>;

/// A channel by its number. The one numbered zero is closed.
#[derive(Debug, PartialEq, Eq)]
struct Channel(u8);

impl L2capChannel for Channel {
    fn is_closed(&self) -> bool {
        self.0 == 0
    }
}

struct Ends {
    control_rx: mpsc::Receiver<u8>,
    data_rx: mpsc::Receiver<Vec<u8>>,
}

type Link = InboundLink<Ends>;

fn queue(capacity: usize) -> (BoundedQueue<Link>, mpsc::Receiver<Link>) {
    let (sender, links) = mpsc::channel(capacity);
    (BoundedQueue::new(sender), links)
}

fn open() -> OpenedLink<&'static str, u8, Inbox, Ends> {
    let (control_tx, control_rx) = mpsc::channel(1);
    let (data_tx, data_rx) = mpsc::channel(1);
    OpenedLink {
        central: "central",
        maximum_update: 182,
        control_tx,
        data_tx,
        ends: Ends {
            control_rx,
            data_rx,
        },
    }
}

fn decode(bytes: &Vec<u8>) -> Option<u8> {
    match bytes.as_slice() {
        [3, value] => Some(*value),
        _ => None,
    }
}

fn write(
    state: &mut State,
    inbound: &mut BoundedQueue<Link>,
    peer_id: CoreBluetoothPeerId,
    role: Option<CharacteristicRole>,
    value: Vec<u8>,
) -> AttAnswer {
    state.did_receive_write(
        true,
        true,
        peer_id,
        role,
        Some(value),
        inbound,
        decode,
        open,
    )
}

#[test]
fn listener_cleanup_removes_only_closed_exact_peer_ids() {
    let closed = prefixed_peer_id(0x5a, 1);
    let colliding_live = prefixed_peer_id(0x5a, 2);
    let unrelated_closed = prefixed_peer_id(0x6b, 1);
    assert_eq!(closed.address(), colliding_live.address());

    let mut sessions = map_of([
        (closed, true),
        (colliding_live, false),
        (unrelated_closed, true),
    ]);
    let mut pending = map_of([
        (closed, "closed"),
        (colliding_live, "live"),
        (unrelated_closed, "unrelated"),
    ]);

    assert_eq!(
        reap_closed_sessions(
            &mut sessions,
            &mut pending,
            Some(closed.address()),
            |closed: &bool| *closed,
        ),
        1
    );
    assert!(!sessions.contains_key(closed));
    assert!(!pending.contains_key(closed));
    assert!(sessions.contains_key(colliding_live));
    assert!(pending.contains_key(colliding_live));
    assert!(sessions.contains_key(unrelated_closed));
    assert!(pending.contains_key(unrelated_closed));
}

#[test]
fn global_reap_reclaims_session_capacity_across_disable_cycles() {
    let mut sessions = PeerMap::new();
    let mut pending = PeerMap::new();

    for suffix in 0..8 {
        let peer_id = prefixed_peer_id(suffix, suffix);
        sessions.insert(peer_id, true);
        pending.insert(peer_id, ());
        assert!(!can_open_inbound(sessions.len(), 1));
        assert_eq!(
            reap_closed_sessions(&mut sessions, &mut pending, None, |closed: &bool| *closed),
            1
        );
        assert!(can_open_inbound(sessions.len(), 1));
        assert!(pending.is_empty());
    }
}

#[test]
fn stale_l2cap_waiters_are_reaped_before_map_admission() {
    let stale_peer = prefixed_peer_id(1, 1);
    let next_peer = prefixed_peer_id(2, 2);
    let (tx, rx) = oneshot::channel::<Channel>();
    let mut stale = PendingL2cap::new(1);
    assert!(stale.arm(tx));
    drop(rx);

    let mut pending = map_of([(stale_peer, stale)]);
    assert!(!can_arm_l2cap(&pending, next_peer, 1));
    assert_eq!(reap_stale_pending_l2cap(&mut pending), 1);
    assert!(can_arm_l2cap(&pending, next_peer, 1));
}

#[test]
fn closed_waiters_reclaim_exact_peer_waiter_capacity() {
    let mut pending = PendingL2cap::new(1);
    let mut receivers = Vec::new();
    for _ in 0..4 {
        let (tx, rx) = oneshot::channel::<Channel>();
        assert!(pending.arm(tx));
        receivers.push(rx);
    }
    let (overflow_tx, overflow_rx) = oneshot::channel::<Channel>();
    assert!(!pending.arm(overflow_tx));
    assert!(overflow_rx.blocking_recv().is_err());

    drop(receivers);
    let (replacement_tx, _replacement_rx) = oneshot::channel::<Channel>();
    assert!(pending.arm(replacement_tx));
    assert_eq!(pending.waiter_len(), 1);
}

#[test]
fn pending_l2cap_bounds_waiters_per_peer() {
    let mut pending = PendingL2cap::new(1);
    let mut receivers = Vec::new();
    for _ in 0..4 {
        let (tx, rx) = oneshot::channel::<Channel>();
        assert!(pending.arm(tx));
        receivers.push(rx);
    }
    let (overflow, overflow_rx) = oneshot::channel::<Channel>();
    assert!(!pending.arm(overflow));
    assert_eq!(pending.waiter_len(), 4);
    assert!(overflow_rx.blocking_recv().is_err());
    drop(receivers);
}

#[test]
fn a_channel_goes_to_whoever_waited_longest() {
    let mut pending = PendingL2cap::new(1);
    assert!(pending.is_empty());
    let (first, first_rx) = oneshot::channel();
    let (second, mut second_rx) = oneshot::channel();
    let (third, mut third_rx) = oneshot::channel();
    assert!(pending.arm(first));
    assert!(pending.arm(second));
    assert!(pending.arm(third));
    drop(first_rx);
    assert!(pending.deliver(Channel(7)));
    assert_eq!(second_rx.try_recv(), Ok(Channel(7)));
    assert!(pending.deliver(Channel(8)));
    assert_eq!(third_rx.try_recv(), Ok(Channel(8)));
    assert!(pending.can_deliver());
    assert!(pending.deliver(Channel(0)));
    assert!(!pending.can_deliver());
    assert!(pending.deliver(Channel(9)));
    assert!(!pending.deliver(Channel(10)));
    let (fourth, mut fourth_rx) = oneshot::channel();
    assert!(pending.arm(fourth));
    assert_eq!(fourth_rx.try_recv(), Ok(Channel(9)));
    assert!(pending.is_empty());
}

#[test]
fn an_entry_of_which_nothing_is_left_goes() {
    let (waiter, receiver) = oneshot::channel();
    let (entry, armed) = PendingL2cap::<Channel>::arm_entry(None, 1, waiter);
    assert!(armed);
    drop(receiver);
    assert!(entry.expect("somebody waits").settle().is_none());

    let (entry, taken) = PendingL2cap::deliver_entry(None, 1, Channel(5));
    assert!(taken);
    let (waiter, mut receiver) = oneshot::channel();
    let (entry, armed) = PendingL2cap::arm_entry(entry, 1, waiter);
    assert!(armed);
    assert!(entry.is_none());
    assert_eq!(receiver.try_recv(), Ok(Channel(5)));

    let (entry, taken) = PendingL2cap::deliver_entry(None, 0, Channel(6));
    assert!(!taken);
    assert!(entry.is_none());
}

#[test]
fn l2cap_admission_uses_full_peer_id_not_synthetic_address() {
    let listener = prefixed_peer_id(0x5a, 1);
    let armed_collision = prefixed_peer_id(0x5a, 2);
    let unknown_collision = prefixed_peer_id(0x5a, 3);
    assert_eq!(listener.address(), armed_collision.address());
    assert_eq!(listener.address(), unknown_collision.address());

    let sessions = map_of([(listener, ())]);
    let pending = map_of([(armed_collision, ())]);
    assert_eq!(
        l2cap_delivery_admission(&sessions, &pending, armed_collision, 1),
        L2capDeliveryAdmission::Existing
    );
    assert_eq!(
        l2cap_delivery_admission(&sessions, &pending, listener, 1),
        L2capDeliveryAdmission::Full
    );
    assert_eq!(
        l2cap_delivery_admission(&sessions, &pending, unknown_collision, 2),
        L2capDeliveryAdmission::Unknown
    );
}

#[test]
fn peripheral_role_maps_have_explicit_aggregate_caps_and_preserve_central_l2cap() {
    assert_eq!(central_peripheral_capacity(8), 32);
    assert_eq!(peripheral_session_capacity(8), 20);
    assert_eq!(pending_l2cap_capacity(8), 52);
    assert!(can_open_inbound(19, 20));
    assert!(!can_open_inbound(20, 20));

    let central = peer_id(1);
    let listener = peer_id(2);
    let unknown = peer_id(3);
    let full_listener = peer_id(4);
    let sessions = map_of([(listener, ()), (full_listener, ())]);
    let pending = map_of([(central, ())]);
    assert_eq!(
        l2cap_delivery_admission(&sessions, &pending, central, 1),
        L2capDeliveryAdmission::Existing
    );
    assert_eq!(
        l2cap_delivery_admission(&sessions, &PeerMap::<()>::new(), listener, 1),
        L2capDeliveryAdmission::Listener
    );
    assert_eq!(
        l2cap_delivery_admission(&sessions, &pending, unknown, 2),
        L2capDeliveryAdmission::Unknown
    );
    assert_eq!(
        l2cap_delivery_admission(&sessions, &pending, full_listener, 1),
        L2capDeliveryAdmission::Full
    );
    assert!(can_arm_l2cap(&pending, central, 1));
    assert!(!can_arm_l2cap(&pending, unknown, 1));
}

#[test]
fn peripheral_capacities_saturate() {
    assert_eq!(peripheral_session_capacity(0), 4);
    assert_eq!(peripheral_session_capacity(usize::MAX), usize::MAX);
    assert_eq!(pending_l2cap_capacity(usize::MAX), usize::MAX);
}

#[test]
fn a_notification_is_clamped_to_what_the_link_carries() {
    assert_eq!(gatt_mtu(0, 5, 500), 6);
    assert_eq!(gatt_mtu(5, 5, 500), 6);
    assert_eq!(gatt_mtu(6, 5, 500), 6);
    assert_eq!(gatt_mtu(182, 5, 500), 182);
    assert_eq!(gatt_mtu(512, 5, 500), 500);
}

#[test]
fn the_first_control_message_opens_a_native_session() {
    let (mut inbound, mut links) = queue(1);
    let mut state: State = PeripheralState::new(8, 1, 500);
    let peer = peer_id(1);

    assert_eq!(
        write(&mut state, &mut inbound, peer, Some(CharacteristicRole::Control), vec![3, 1]),
        AttAnswer::Success
    );
    let mut link = links.try_recv().expect("the link is offered");
    assert_eq!(link.peer_protocol, PeerProtocol::Native);
    assert_eq!(link.peer_identity, None);
    assert_eq!(link.peer_id, peer);
    assert_eq!(link.address, peer.address());
    assert_eq!(link.gatt_mtu, 182);
    assert!(links.try_recv().is_err());
    assert_eq!(link.ends.control_rx.try_recv(), Ok(1));
    assert!(state.has_inbound_session(true, peer));
    assert!(!state.has_inbound_session(false, peer));

    assert_eq!(
        write(&mut state, &mut inbound, peer, Some(CharacteristicRole::Data), vec![7, 8]),
        AttAnswer::Success
    );
    assert_eq!(link.ends.data_rx.try_recv(), Ok(vec![7, 8]));
    assert_eq!(
        write(&mut state, &mut inbound, peer, Some(CharacteristicRole::Data), vec![1]),
        AttAnswer::Success
    );
    assert_eq!(
        write(&mut state, &mut inbound, peer, Some(CharacteristicRole::Data), vec![2]),
        AttAnswer::InsufficientResources
    );
    assert_eq!(
        state.notify(true, true, peer, ListenerCharacteristic::Data),
        Some(("central", CharacteristicRole::Data))
    );
    assert_eq!(
        state.notify(true, false, peer, ListenerCharacteristic::Data),
        None
    );

    drop(link);
    assert!(!state.has_inbound_session(true, peer));
    assert_eq!(
        state.notify(true, true, peer, ListenerCharacteristic::Control),
        None
    );
}

#[test]
fn an_identity_opens_a_columba_session_and_later_writes_are_fragments() {
    let (mut inbound, mut links) = queue(1);
    let mut state: State = PeripheralState::new(8, 1, 500);
    let peer = peer_id(1);

    assert_eq!(
        write(&mut state, &mut inbound, peer, Some(CharacteristicRole::ColumbaRx), vec![1]),
        AttAnswer::Success
    );
    assert!(!state.has_inbound_session(true, peer));
    assert_eq!(
        write(&mut state, &mut inbound, peer, Some(CharacteristicRole::ColumbaRx), vec![9; 16]),
        AttAnswer::Success
    );
    let mut link = links.try_recv().expect("the link is offered");
    assert_eq!(link.peer_protocol, PeerProtocol::Columba);
    assert_eq!(link.address, peer.address());
    assert_eq!(link.peer_identity, Some(BleIdentity::new([9; 16])));
    assert_eq!(
        write(&mut state, &mut inbound, peer, Some(CharacteristicRole::ColumbaRx), vec![4; 16]),
        AttAnswer::Success
    );
    assert_eq!(link.ends.data_rx.try_recv(), Ok(vec![4; 16]));
    assert_eq!(
        state.notify(true, true, peer, ListenerCharacteristic::Control),
        Some(("central", CharacteristicRole::ColumbaTx))
    );

    assert!(!state.did_unsubscribe(peer, Some(CharacteristicRole::Control)));
    assert!(state.did_unsubscribe(peer, Some(CharacteristicRole::ColumbaTx)));
    assert!(!state.has_inbound_session(true, peer));
}

#[test]
fn an_inbound_link_that_nobody_takes_leaves_no_session() {
    let (mut inbound, links) = queue(1);
    let mut state: State = PeripheralState::new(8, 1, 500);
    assert_eq!(
        write(&mut state, &mut inbound, peer_id(1), None, vec![3, 1]),
        AttAnswer::Success
    );
    assert_eq!(
        write(&mut state, &mut inbound, peer_id(2), None, vec![3, 1]),
        AttAnswer::InsufficientResources
    );
    assert!(!state.sessions.contains_key(peer_id(2)));
    assert!(state.sessions.contains_key(peer_id(1)));
    drop(links);
    assert_eq!(
        write(&mut state, &mut inbound, peer_id(3), None, vec![3, 1]),
        AttAnswer::InsufficientResources
    );
    assert!(state.sessions.is_empty());
    assert_eq!(
        write(&mut state, &mut inbound, peer_id(3), None, vec![1]),
        AttAnswer::Success
    );
    assert!(!state.settle_inbound(peer_id(3), BoundedIngress::Full(())));
    assert!(state.settle_inbound(peer_id(3), BoundedIngress::<()>::Accepted));
}

#[test]
fn inbound_sessions_stay_within_their_capacity() {
    let (mut inbound, mut links) = queue(64);
    let mut state: State = PeripheralState::new(1, 1, 500);
    assert_eq!(state.session_capacity, 6);
    let mut held = Vec::new();
    for value in 0..6 {
        assert_eq!(
            write(&mut state, &mut inbound, peer_id(value), None, vec![3, 1]),
            AttAnswer::Success
        );
        held.push(links.try_recv().expect("the link is offered"));
    }
    assert_eq!(
        write(&mut state, &mut inbound, peer_id(6), None, vec![3, 1]),
        AttAnswer::InsufficientResources
    );
    assert!(links.try_recv().is_err());
    held.remove(2);
    assert_eq!(
        write(&mut state, &mut inbound, peer_id(6), None, vec![3, 1]),
        AttAnswer::Success
    );
    assert!(!state.sessions.contains_key(peer_id(2)));
}

#[test]
fn a_radio_that_is_off_takes_no_write_and_keeps_what_was_published() {
    let (mut inbound, mut links) = queue(1);
    let mut state: State = PeripheralState::new(8, 1, 500);
    let first = state.did_update_state(true);
    assert!(first.add_service && first.publish_l2cap);
    assert_eq!(
        write(&mut state, &mut inbound, peer_id(1), None, vec![3, 1]),
        AttAnswer::Success
    );
    assert!(links.try_recv().is_ok());
    state.set_radio_enabled(false);
    assert!(state.sessions.is_empty());
    for (radio_enabled, still_enabled) in [(false, false), (false, true), (true, false)] {
        assert_eq!(
            state.did_receive_write(
                radio_enabled,
                still_enabled,
                peer_id(1),
                None,
                Some(vec![3, 1]),
                &mut inbound,
                decode,
                open,
            ),
            AttAnswer::InsufficientResources
        );
    }
    assert!(!state.open_inbound(
        false,
        peer_id(1),
        InboundProfile::Native,
        &mut inbound,
        open
    ));
    assert!(links.try_recv().is_err());
    assert!(state.sessions.is_empty());
    state.set_radio_enabled(true);
    let again = state.did_update_state(true);
    assert!(!again.add_service && !again.publish_l2cap);

    let mut restored: State = PeripheralState::new(8, 1, 500);
    restored.service_restored();
    let request = restored.did_update_state(true);
    assert!(!request.add_service && request.publish_l2cap);
    assert!(!restored.did_update_state(false).add_service);
}

#[test]
fn l2cap_channels_go_only_to_exact_peers_with_room() {
    let (mut inbound, mut links) = queue(1);
    let mut state: State = PeripheralState::new(8, 1, 500);
    let listener = prefixed_peer_id(0x5a, 1);
    let collision = prefixed_peer_id(0x5a, 2);
    assert_eq!(
        write(&mut state, &mut inbound, listener, None, vec![3, 1]),
        AttAnswer::Success
    );
    let _link = links.try_recv().expect("the link is offered");

    assert_eq!(
        state.admit_l2cap(false, Some(listener)),
        Err(L2capRefusal::RadioOff)
    );
    assert_eq!(state.admit_l2cap(true, None), Err(L2capRefusal::NoPeer));
    assert_eq!(
        state.admit_l2cap(true, Some(collision)),
        Err(L2capRefusal::UnknownPeer)
    );
    assert_eq!(state.admit_l2cap(true, Some(listener)), Ok(listener));
    assert_eq!(state.deliver_l2cap(listener, None), L2capOutcome::NoStreams);
    assert!(state.pending.is_empty());
    assert_eq!(state.admit_l2cap(true, Some(listener)), Ok(listener));
    assert_eq!(
        state.deliver_l2cap(listener, Some(Channel(1))),
        L2capOutcome::Delivered
    );
    assert_eq!(
        state.admit_l2cap(true, Some(listener)),
        Err(L2capRefusal::PeerFull)
    );
    let (waiter, mut channel) = oneshot::channel();
    assert!(state.arm_pending_channel(true, listener, waiter));
    assert_eq!(channel.try_recv(), Ok(Channel(1)));
    assert!(state.pending.is_empty());

    let (waiter, mut channel) = oneshot::channel();
    assert!(state.arm_pending_channel(true, collision, waiter));
    assert_eq!(state.admit_l2cap(true, Some(collision)), Ok(collision));
    assert_eq!(
        state.deliver_l2cap(collision, Some(Channel(42))),
        L2capOutcome::Delivered
    );
    assert_eq!(channel.try_recv(), Ok(Channel(42)));
    assert!(state.pending.is_empty());
    let (waiter, _channel) = oneshot::channel();
    assert!(!state.arm_pending_channel(false, listener, waiter));
    let (waiter, _channel) = oneshot::channel();
    assert!(state.arm_pending_channel(true, listener, waiter));
    assert_eq!(state.pending.len(), 1);
    state.clear_closed_peer(BleAddress::new([0x5a; 6]));
    assert!(state.sessions.contains_key(listener));
    state.clear_peer(listener);
    assert!(!state.sessions.contains_key(listener));
    assert!(state.pending.is_empty());
}

#[test]
fn a_channel_is_dropped_where_its_entry_closed_after_admission() {
    let mut state: State = PeripheralState::new(8, 0, 500);
    let peer = peer_id(1);
    let (waiter, channel) = oneshot::channel();
    assert!(state.arm_pending_channel(true, peer, waiter));
    assert_eq!(state.admit_l2cap(true, Some(peer)), Ok(peer));
    drop(channel);
    assert_eq!(
        state.deliver_l2cap(peer, Some(Channel(1))),
        L2capOutcome::Dropped
    );
    assert!(state.pending.is_empty());

    let mut full: State = PeripheralState::new(0, 1, 500);
    let mut waiting = Vec::new();
    for value in 0..4 {
        let (waiter, channel) = oneshot::channel();
        assert!(full.arm_pending_channel(true, peer_id(value), waiter));
        waiting.push(channel);
    }
    let (mut inbound, mut links) = queue(1);
    assert_eq!(
        write(&mut full, &mut inbound, peer_id(9), None, vec![3, 1]),
        AttAnswer::Success
    );
    let _link = links.try_recv().expect("the link is offered");
    assert_eq!(
        full.admit_l2cap(true, Some(peer_id(9))),
        Err(L2capRefusal::Full)
    );
}

#[test]
fn inbound_profiles_name_their_protocol() {
    assert_eq!(InboundProfile::Native.protocol(), PeerProtocol::Native);
    assert_eq!(
        InboundProfile::Columba(BleIdentity::new([1; 16])).protocol(),
        PeerProtocol::Columba
    );
}
