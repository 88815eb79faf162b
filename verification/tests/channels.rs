use bluetooth_auto::budget::InboundBudget;
use bluetooth_auto::central::{closed_central_session_ids, deliver_all};
use bluetooth_auto::dial::DialRejection;
use bluetooth_auto::error::MacosBleError;
use bluetooth_auto::gatt_write::{
    GattWriteMode, GattWritePlan, GattWriteRequest, GattWriteTarget, PendingAcknowledgedWrite,
    WriteProperties,
};
use bluetooth_auto::ingress::{answer, try_bounded_ingress, BoundedIngress, GattInbox};
use bluetooth_auto::peer::{BleAddress, BleIdentity, CoreBluetoothPeerId, PeerProtocol, Sighting};
use bluetooth_auto::peer_map::PeerMap;
use bluetooth_auto::restored::CENTRAL_CONTROL_INBOUND_CAPACITY;
use bluetooth_auto::session::{CentralPeerSession, DialCompletion, WriteStep};
use bluetooth_auto::signals::{manager_readiness, manager_signal_channel, ManagerSignal, ManagerSignals};
use tokio::sync::{mpsc, oneshot};

#[derive(Clone, Copy, Debug, PartialEq, Eq)]
struct Control([u8; 2]);

type Session = CentralPeerSession<Control, u8, mpsc::Sender<Vec<u8>>, &'static str>;

fn peer_id(value: u16) -> CoreBluetoothPeerId {
    let mut bytes = [0; 16];
    bytes[..2].copy_from_slice(&value.to_le_bytes());
    CoreBluetoothPeerId(bytes)
}

fn session() -> (
    Session,
    mpsc::Receiver<Control>,
    oneshot::Receiver<DialCompletion<u8>>,
    mpsc::Receiver<Vec<u8>>,
) {
    let (control_tx, control_rx) = mpsc::channel(CENTRAL_CONTROL_INBOUND_CAPACITY);
    let (completion_tx, completion_rx) = oneshot::channel();
    let (data_tx, data_rx) = mpsc::channel(8);
    (
        CentralPeerSession::new(BleAddress::new([1; 6]), control_tx, completion_tx, data_tx),
        control_rx,
        completion_rx,
        data_rx,
    )
}

fn target(characteristic: u8, mode: GattWriteMode) -> GattWriteTarget<u8> {
    GattWriteTarget {
        characteristic,
        plan: GattWritePlan::from_discovery(
            mode,
            WriteProperties {
                write: true,
                write_without_response: true,
            },
            512,
            120,
        )
        .expect("both modes are supported"),
    }
}

#[test]
fn startup_requires_central_gatt_and_l2cap_readiness() {
    let (mut signals, current) = manager_signal_channel();
    signals.l2cap_published(0x0081);
    assert_eq!(manager_readiness(*current.borrow(), Some), Ok(None));

    signals.central_powered();
    assert_eq!(manager_readiness(*current.borrow(), Some), Ok(None));

    signals.gatt_service_published();
    assert_eq!(manager_readiness(*current.borrow(), Some), Ok(Some(0x0081)));
}

#[test]
fn bounded_ingress_separates_inbound_and_sighting_pressure() {
    let (inbound_tx, mut inbound_rx) = mpsc::channel(1);
    let (sighting_tx, mut sighting_rx) = mpsc::channel(1);
    let (mut manager_signals, manager_current) = manager_signal_channel();
    let address = BleAddress::new([1; 6]);
    let sighting = Sighting {
        address,
        rssi: Some(-62),
    };

    assert_eq!(
        try_bounded_ingress(&inbound_tx, 1_u8),
        BoundedIngress::Accepted
    );
    assert_eq!(
        try_bounded_ingress(&sighting_tx, sighting),
        BoundedIngress::Accepted
    );
    assert_eq!(
        try_bounded_ingress(&inbound_tx, 2_u8),
        BoundedIngress::Full(2)
    );
    assert_eq!(
        try_bounded_ingress(
            &sighting_tx,
            Sighting {
                address,
                rssi: Some(-50),
            }
        ),
        BoundedIngress::Full(Sighting {
            address,
            rssi: Some(-50),
        })
    );
    manager_signals.central_powered();
    manager_signals.gatt_service_published();
    manager_signals.l2cap_published(0x0081);
    assert_eq!(
        manager_readiness(*manager_current.borrow(), Some),
        Ok(Some(0x0081))
    );
    assert_eq!(inbound_rx.try_recv(), Ok(1));
    assert_eq!(sighting_rx.try_recv(), Ok(sighting));
}

#[test]
fn bounded_ingress_returns_rejected_payload_when_receiver_is_closed() {
    let (sender, receiver) = mpsc::channel(1);
    drop(receiver);
    assert_eq!(
        try_bounded_ingress(&sender, 7_u8),
        BoundedIngress::Closed(7)
    );
}

#[test]
fn manager_failures_are_sticky_and_fatal() {
    let (mut gatt_signals, gatt_current) = manager_signal_channel();
    gatt_signals.gatt_service_publish_failed();
    gatt_signals.gatt_service_published();
    assert!(matches!(
        manager_readiness(*gatt_current.borrow(), Some),
        Err(MacosBleError::PublishFailed)
    ));

    let (mut l2cap_signals, l2cap_current) = manager_signal_channel();
    l2cap_signals.l2cap_publish_failed();
    l2cap_signals.l2cap_published(0x0081);
    assert!(matches!(
        manager_readiness(*l2cap_current.borrow(), Some),
        Err(MacosBleError::PublishFailed)
    ));
}

#[test]
fn a_cloned_signal_sender_reports_to_the_same_receiver() {
    let (mut signals, current) = manager_signal_channel();
    let mut clone = signals.clone();
    clone.central_powered();
    signals.central_powered();
    assert_eq!(current.borrow().central_powered_generation, 2);
}

#[test]
fn a_psm_that_is_turned_down_fails_the_startup_and_generations_wrap() {
    let mut signals = ManagerSignals::new();
    signals.central_powered_generation = u64::MAX;
    signals.apply(ManagerSignal::CentralPowered);
    assert_eq!(signals.central_powered_generation, 0);
    signals.apply(ManagerSignal::CentralPowered);
    signals.apply(ManagerSignal::GattServicePublished);
    signals.apply(ManagerSignal::L2capPublished(7));
    let refuse = |_: u16| -> Option<u16> { None };
    assert_eq!(
        manager_readiness(signals, refuse),
        Err(MacosBleError::PublishFailed)
    );
}

#[test]
fn role_cleanup_only_selects_a_session_after_its_data_receiver_closes() {
    let (session_one, _control_rx, _completion_rx, data_rx) = session();
    let closed_peer = peer_id(1);

    assert!(!session_one.data_receiver_closed());
    drop(data_rx);
    assert!(session_one.data_receiver_closed());

    let (open_session, _open_control_rx, _open_completion_rx, _open_data_rx) = session();
    let open_peer = peer_id(2);
    let mut sessions = PeerMap::new();
    sessions.insert(closed_peer, session_one);
    sessions.insert(open_peer, open_session);
    assert!(closed_central_session_ids(&sessions) == vec![closed_peer]);
}

#[test]
fn active_control_inbox_reports_full_and_closed_instead_of_dropping_input() {
    let control = Control([0x03, 0x01]);
    let (mut session, control_rx, _completion_rx, _data_rx) = session();

    for _ in 0..CENTRAL_CONTROL_INBOUND_CAPACITY {
        assert!(session.enqueue_control(control) == BoundedIngress::Accepted);
    }
    assert!(matches!(
        session.enqueue_control(control),
        BoundedIngress::Full(_)
    ));

    drop(control_rx);
    assert!(matches!(
        session.enqueue_control(control),
        BoundedIngress::Closed(_)
    ));
}

#[test]
fn an_answer_that_nobody_waits_for_comes_back() {
    let (sender, receiver) = oneshot::channel();
    assert_eq!(answer(sender, 5_u8), Ok(()));
    assert_eq!(receiver.blocking_recv(), Ok(5));

    let (sender, receiver) = oneshot::channel();
    drop(receiver);
    assert_eq!(answer(sender, 6_u8), Err(6));
}

#[test]
fn an_inbox_takes_fragments_until_it_is_full_or_closed() {
    let (sender, mut receiver) = mpsc::channel(1);
    assert!(sender.try_push(vec![1, 2]));
    assert!(!sender.try_push(vec![3]));
    assert_eq!(receiver.try_recv(), Ok(vec![1, 2]));
    assert!(!GattInbox::is_closed(&sender));
    drop(receiver);
    assert!(GattInbox::is_closed(&sender));
    assert!(!sender.try_push(vec![4]));
}

#[test]
fn a_native_session_is_handed_over_once() {
    let (mut session, _control_rx, completion_rx, _data_rx) = session();
    assert!(session.native_ready(7).is_none());
    session.select_native(Some(target(9, GattWriteMode::WithResponse)));
    let delivery = session.native_ready(7).expect("the dialer waits");
    delivery.send();
    match completion_rx.blocking_recv() {
        Ok(DialCompletion::Ready(chars)) => {
            assert_eq!(chars.peer_protocol, PeerProtocol::Native);
            assert_eq!(chars.peer_identity, None);
            assert_eq!(chars.control, 7);
            assert_eq!(chars.data.map(|data| data.characteristic), Some(9));
        }
        _ => panic!("expected a ready dial"),
    }
    assert!(session.native_ready(8).is_none());
}

#[test]
fn a_columba_session_needs_its_identity_and_its_subscription() {
    let identity = BleIdentity::new([4; 16]);
    for subscription_first in [false, true] {
        let (mut session, _control_rx, completion_rx, _data_rx) = session();
        session.select_columba(target(3, GattWriteMode::WithoutResponse), 4);
        let delivery = if subscription_first {
            assert!(session.columba_subscribed().is_none());
            assert!(session.columba_subscribed().is_none());
            session.columba_identity(identity)
        } else {
            assert!(session.columba_identity(BleIdentity::new([0; 16])).is_none());
            assert!(session.columba_identity(identity).is_none());
            session.columba_subscribed()
        };
        delivery.expect("the dialer waits").send();
        match completion_rx.blocking_recv() {
            Ok(DialCompletion::Ready(chars)) => {
                assert_eq!(chars.peer_protocol, PeerProtocol::Columba);
                assert_eq!(chars.peer_identity, Some(identity));
                assert_eq!(chars.control, 3);
                assert_eq!(chars.data.map(|data| data.characteristic), Some(3));
            }
            _ => panic!("expected a ready dial"),
        }
        assert!(session.columba_identity(identity).is_none());
        assert!(session.columba_subscribed().is_none());
    }
}

#[test]
fn a_failed_or_rejected_session_tells_its_dialer() {
    let (failed, _control_rx, failed_rx, _data_rx) = session();
    let (rejected, _control_rx, rejected_rx, _data_rx) = session();
    let mut deliveries = Vec::new();
    deliveries.extend(failed.fail());
    deliveries.extend(rejected.reject(DialRejection::RadioOff));
    deliver_all(deliveries);
    assert!(matches!(
        failed_rx.blocking_recv(),
        Ok(DialCompletion::Failed)
    ));
    assert!(matches!(
        rejected_rx.blocking_recv(),
        Ok(DialCompletion::Rejected(DialRejection::RadioOff))
    ));
}

#[test]
fn writes_are_serialized_by_their_session() {
    let (mut session, _control_rx, _completion_rx, _data_rx) = session();
    let request = |mode: GattWriteMode, reply: &'static str| GattWriteRequest {
        characteristic: 5_u8,
        mode,
        bytes: vec![1, 2, 3],
        reply,
    };

    match session.submit_write(request(GattWriteMode::WithResponse, "first"), false) {
        WriteStep::Acknowledged {
            characteristic,
            bytes,
        } => {
            assert_eq!(characteristic, 5);
            assert_eq!(bytes, vec![1, 2, 3]);
        }
        _ => panic!("expected an acknowledged write"),
    }
    assert!(matches!(
        session.submit_write(request(GattWriteMode::WithResponse, "second"), true),
        WriteStep::Refused { report }
            if report.reply == "second" && report.result == Err(MacosBleError::QueueFull)
    ));
    assert!(session.finish_acknowledged_write(&6, Ok(())).is_none());
    let report = session
        .finish_acknowledged_write(&5, Ok(()))
        .expect("the write was outstanding");
    assert_eq!(report.reply, "first");
    assert_eq!(report.result, Ok(()));
    assert!(session.finish_acknowledged_write(&5, Ok(())).is_none());

    assert!(matches!(
        session.submit_write(request(GattWriteMode::WithoutResponse, "third"), true),
        WriteStep::Unacknowledged { report, .. }
            if report.reply == "third" && report.result == Ok(())
    ));
    assert!(matches!(
        session.submit_write(request(GattWriteMode::WithoutResponse, "fourth"), false),
        WriteStep::Idle
    ));
    assert!(matches!(
        session.submit_write(request(GattWriteMode::WithoutResponse, "fifth"), true),
        WriteStep::Refused { report } if report.reply == "fifth"
    ));
    let waiting = |_: &&'static str| false;
    let gone = |_: &&'static str| true;
    assert!(matches!(
        session.drain_unacknowledged_write(waiting, false),
        WriteStep::Idle
    ));
    assert!(matches!(
        session.drain_unacknowledged_write(waiting, true),
        WriteStep::Unacknowledged { characteristic: 5, report, .. } if report.reply == "fourth"
    ));
    assert!(matches!(
        session.drain_unacknowledged_write(waiting, true),
        WriteStep::Idle
    ));
    assert!(session
        .hold_unacknowledged_write(request(GattWriteMode::WithoutResponse, "sixth"))
        .is_ok());
    assert!(session
        .hold_unacknowledged_write(request(GattWriteMode::WithoutResponse, "seventh"))
        .is_err());
    assert!(matches!(
        session.drain_unacknowledged_write(gone, true),
        WriteStep::Idle
    ));
    assert!(session.unacknowledged_write.is_none());
    assert!(session
        .begin_acknowledged_write(PendingAcknowledgedWrite {
            characteristic: 1,
            reply: "eighth",
        })
        .is_ok());
    assert!(session
        .begin_acknowledged_write(PendingAcknowledgedWrite {
            characteristic: 1,
            reply: "ninth",
        })
        .is_err());
}

fn properties(write: bool, write_without_response: bool) -> WriteProperties {
    WriteProperties {
        write,
        write_without_response,
    }
}

#[test]
fn native_write_selects_acknowledged_atomic_fragments_when_both_modes_are_advertised() {
    let plan = GattWritePlan::from_discovery(
        GattWriteMode::WithResponse,
        properties(true, true),
        512,
        244,
    )
    .unwrap();

    assert_eq!(plan.mode(), GattWriteMode::WithResponse);
    assert_eq!(plan.fragment_mtu(), 180);
}

#[test]
fn columba_write_selects_unacknowledged_fragments_when_advertised() {
    let plan = GattWritePlan::from_discovery(
        GattWriteMode::WithoutResponse,
        properties(true, true),
        512,
        120,
    )
    .unwrap();

    assert_eq!(plan.mode(), GattWriteMode::WithoutResponse);
    assert_eq!(plan.fragment_mtu(), 120);
}

#[test]
fn unsupported_or_non_fragmentable_characteristics_are_rejected() {
    assert!(matches!(
        GattWritePlan::from_discovery(
            GattWriteMode::WithResponse,
            properties(false, false),
            512,
            244
        ),
        Err(MacosBleError::UnsupportedWriteMode)
    ));
    assert!(matches!(
        GattWritePlan::from_discovery(
            GattWriteMode::WithResponse,
            properties(true, false),
            512,
            5
        ),
        Err(MacosBleError::InvalidWriteMtu)
    ));
    assert!(matches!(
        GattWritePlan::from_discovery(
            GattWriteMode::WithResponse,
            properties(false, true),
            512,
            244
        ),
        Err(MacosBleError::UnsupportedWriteMode)
    ));
    assert!(matches!(
        GattWritePlan::from_discovery(
            GattWriteMode::WithoutResponse,
            properties(true, false),
            512,
            244
        ),
        Err(MacosBleError::UnsupportedWriteMode)
    ));
}

#[test]
fn an_inbox_budget_is_filled_exactly_and_given_back() {
    let mut budget = InboundBudget::new(5);
    let first = vec![1, 2, 3];
    let second = vec![4, 5];
    assert!(budget.charge(&first));
    assert!(budget.charge(&second));
    assert!(!budget.charge(&vec![6]));
    assert!(!budget.charge(&vec![]));
    budget.release(&first);
    assert!(budget.charge(&vec![6, 7, 8]));
    assert!(!budget.charge(&vec![9]));

    let mut single = InboundBudget::new(1);
    assert!(single.charge(&vec![]));
    assert!(!single.charge(&vec![]));
    single.release(&vec![]);
    assert!(single.charge(&vec![7]));
}
