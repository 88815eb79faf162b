use bluetooth_auto::backend::{central_state, ApplePlatform};
use bluetooth_auto::central::{deliver_all, CentralState};
use bluetooth_auto::central_events::{
    rssi_from_dbm, DiscoverAction, Discovery, EventStep, ProfileStep, RestoreAction,
    RestoredPeripheral,
};
use bluetooth_auto::dial::{
    is_system_connected, DialFacts, DialRejection, DialStart, PeripheralLinkState,
};
use bluetooth_auto::discovery::{CandidateStrength, StaleLinkRecovery};
use bluetooth_auto::error::MacosBleError;
use bluetooth_auto::gatt_write::{
    GattWriteMode, GattWritePlan, GattWriteRequest, GattWriteTarget, WriteProperties,
};
use bluetooth_auto::peer::{BleIdentity, CoreBluetoothPeerId, PeerProtocol, Sighting};
use bluetooth_auto::profile::{
    characteristic_plan, BleUuid, CharacteristicRole, DiscoveredProfile, FoundCharacteristic,
    ProfileUuids,
};
use bluetooth_auto::registry_model::CentralDialCandidate;
use bluetooth_auto::session::{CentralPeerSession, DialCompletion, WriteStep};
use std::collections::VecDeque;
use tokio::sync::{mpsc, oneshot};

type Inbox = mpsc::Sender<Vec<u8>>;
type State = CentralState<u16, u8, u8, Inbox, &'static str>;
type Session = CentralPeerSession<u8, u8, Inbox, &'static str>;

struct Dialer {
    control_rx: mpsc::Receiver<u8>,
    completion_rx: oneshot::Receiver<DialCompletion<u8>>,
    data_rx: mpsc::Receiver<Vec<u8>>,
}

fn peer_id(value: u16) -> CoreBluetoothPeerId {
    let mut bytes = [0; 16];
    bytes[..2].copy_from_slice(&value.to_le_bytes());
    CoreBluetoothPeerId(bytes)
}

fn state() -> State {
    CentralState::new(StaleLinkRecovery::Enabled, 4, 2, 64)
}

fn session(peer_id: CoreBluetoothPeerId) -> (Session, Dialer) {
    let (control_tx, control_rx) = mpsc::channel(2);
    let (completion_tx, completion_rx) = oneshot::channel();
    let (data_tx, data_rx) = mpsc::channel(2);
    (
        CentralPeerSession::new(peer_id.address(), control_tx, completion_tx, data_tx),
        Dialer {
            control_rx,
            completion_rx,
            data_rx,
        },
    )
}

fn discovery(value: u16, strength: CandidateStrength) -> Discovery<u16> {
    Discovery {
        peer_id: peer_id(value),
        peripheral: value,
        rssi: Some(-40),
        strength,
        link_state: PeripheralLinkState::Disconnected,
    }
}

fn dial(state: &mut State, value: u16) -> Dialer {
    let peer = peer_id(value);
    let (_, action) = state.did_discover(true, discovery(value, CandidateStrength::Strong), 0);
    assert_eq!(action, DiscoverAction::Sighted);
    let (_, candidate) = state.claim(true, peer.address(), 0);
    let restored = match candidate {
        CentralDialCandidate::Ready { restored, .. } => restored,
        _ => panic!("expected a ready dial candidate"),
    };
    let (session, dialer) = session(peer);
    let facts = facts(PeripheralLinkState::Disconnected, false, false, restored);
    let step = state.begin_dial(true, peer, session, facts, 0);
    assert_eq!(step.start, Some(DialStart::Connect));
    assert!(step.begin.began);
    dialer
}

fn decode(bytes: &Vec<u8>) -> Option<u8> {
    match bytes.as_slice() {
        [3, value] => Some(*value),
        _ => None,
    }
}

fn writable(characteristic: &u8, mode: GattWriteMode) -> Result<GattWriteTarget<u8>, MacosBleError> {
    Ok(GattWriteTarget {
        characteristic: *characteristic,
        plan: GattWritePlan::from_discovery(
            mode,
            WriteProperties {
                write: true,
                write_without_response: true,
            },
            512,
            100,
        )?,
    })
}

fn unwritable(_: &u8, _: GattWriteMode) -> Result<GattWriteTarget<u8>, MacosBleError> {
    Err(MacosBleError::UnsupportedWriteMode)
}

fn native_profile() -> DiscoveredProfile<u8> {
    DiscoveredProfile {
        control: Some(1),
        data: Some(2),
        columba_rx: None,
        columba_tx: None,
        columba_identity: None,
    }
}

fn columba_profile() -> DiscoveredProfile<u8> {
    DiscoveredProfile {
        control: None,
        data: None,
        columba_rx: Some(3),
        columba_tx: Some(4),
        columba_identity: Some(5),
    }
}

fn facts(
    link_state: PeripheralLinkState,
    system_connected: bool,
    target_has_inbound_session: bool,
    restored_connection: bool,
) -> DialFacts {
    DialFacts {
        link_state,
        system_connected,
        target_has_inbound_session,
        restored_connection,
    }
}

#[test]
fn a_native_dial_runs_from_sighting_to_handover() {
    let mut state = state();
    let peer = peer_id(1);
    let mut dialer = dial(&mut state, 1);
    let connected = state.did_connect(true, peer, 0);
    assert!(connected.discover_services);
    assert!(state.did_discover_services(peer, false, true, 0).is_none());
    match state.did_discover_characteristics(peer, Some(native_profile()), writable) {
        ProfileStep::SubscribeNative { data, control } => {
            assert_eq!(data, Some(2));
            assert_eq!(control, 1);
        }
        _ => panic!("expected the native profile"),
    }
    match state.did_update_notification_state(peer, false, Some(CharacteristicRole::Control), 1) {
        EventStep::Stays(Some(delivery)) => delivery.send(),
        _ => panic!("expected a handover"),
    }
    match dialer.completion_rx.try_recv() {
        Ok(DialCompletion::Ready(chars)) => {
            assert_eq!(chars.peer_protocol, PeerProtocol::Native);
            assert_eq!(chars.control, 1);
        }
        _ => panic!("expected a ready dial"),
    }

    let fragment = state.did_update_value(
        peer,
        false,
        Some(CharacteristicRole::Data),
        Some(vec![8, 9]),
        decode,
    );
    assert!(matches!(fragment, EventStep::Stays(None)));
    assert_eq!(dialer.data_rx.try_recv(), Ok(vec![8, 9]));
    let control = state.did_update_value(
        peer,
        false,
        Some(CharacteristicRole::Control),
        Some(vec![3, 7]),
        decode,
    );
    assert!(matches!(control, EventStep::Stays(None)));
    assert_eq!(dialer.control_rx.try_recv(), Ok(7));
    let noise = state.did_update_value(peer, false, None, Some(vec![1]), decode);
    assert!(matches!(noise, EventStep::Stays(None)));
    let nothing = state.did_update_value(peer, false, None, None, decode);
    assert!(matches!(nothing, EventStep::Stays(None)));
}

#[test]
fn a_columba_dial_reads_the_identity_and_rejects_a_short_one() {
    let mut state = state();
    let peer = peer_id(1);
    let mut dialer = dial(&mut state, 1);
    match state.did_discover_characteristics(peer, Some(columba_profile()), writable) {
        ProfileStep::SubscribeColumba { identity, tx } => {
            assert_eq!(identity, 5);
            assert_eq!(tx, 4);
        }
        _ => panic!("expected the Columba profile"),
    }
    let subscribed =
        state.did_update_notification_state(peer, false, Some(CharacteristicRole::ColumbaTx), 4);
    assert!(matches!(subscribed, EventStep::Stays(None)));
    match state.did_update_value(
        peer,
        false,
        Some(CharacteristicRole::ColumbaIdentity),
        Some(vec![6; 16]),
        decode,
    ) {
        EventStep::Stays(Some(delivery)) => delivery.send(),
        _ => panic!("expected a handover"),
    }
    match dialer.completion_rx.try_recv() {
        Ok(DialCompletion::Ready(chars)) => {
            assert_eq!(chars.peer_identity, Some(BleIdentity::new([6; 16])));
        }
        _ => panic!("expected a ready dial"),
    }
    let short = state.did_update_value(
        peer,
        false,
        Some(CharacteristicRole::ColumbaIdentity),
        Some(vec![6; 15]),
        decode,
    );
    match short {
        EventStep::Gone(finished) => {
            assert_eq!(finished.peripheral, Some(1));
            assert!(finished.delivery.is_none());
        }
        _ => panic!("expected the peer to be gone"),
    }
    assert!(state.sessions.is_empty());
}

#[test]
fn a_peer_that_cannot_be_used_is_gone_and_its_dialer_told() {
    for failure in 0..5 {
        let mut state = state();
        let peer = peer_id(1);
        let mut dialer = dial(&mut state, 1);
        let finished = match failure {
            0 => state
                .did_discover_services(peer, true, true, 0)
                .expect("discovery failed"),
            1 => state
                .did_discover_services(peer, false, false, 0)
                .expect("there is no service"),
            2 => match state.did_discover_characteristics(peer, Some(native_profile()), unwritable) {
                ProfileStep::Gone(finished) => finished,
                _ => panic!("expected the peer to be gone"),
            },
            3 => match state.did_discover_characteristics(peer, None, writable) {
                ProfileStep::Gone(finished) => finished,
                _ => panic!("expected the peer to be gone"),
            },
            _ => match state.did_update_notification_state(peer, true, None, 1) {
                EventStep::Gone(finished) => finished,
                _ => panic!("expected the peer to be gone"),
            },
        };
        assert_eq!(finished.peripheral, Some(1));
        finished.delivery.expect("the dialer waits").send();
        assert!(matches!(
            dialer.completion_rx.try_recv(),
            Ok(DialCompletion::Failed)
        ));
        let (_, action) = state.did_discover(true, discovery(1, CandidateStrength::Weak), 1);
        let expected = if failure == 1 {
            DiscoverAction::Ignore
        } else {
            DiscoverAction::Sighted
        };
        assert_eq!(action, expected);
        let (_, strong) = state.did_discover(true, discovery(1, CandidateStrength::Strong), 1);
        assert_eq!(strong, DiscoverAction::Sighted);
    }
}

#[test]
fn refused_values_end_the_session() {
    let mut state = state();
    let peer = peer_id(1);
    let mut dialer = dial(&mut state, 1);
    for _ in 0..2 {
        let step = state.did_update_value(
            peer,
            false,
            Some(CharacteristicRole::Data),
            Some(vec![1]),
            decode,
        );
        assert!(matches!(step, EventStep::Stays(None)));
    }
    match state.did_update_value(
        peer,
        false,
        Some(CharacteristicRole::ColumbaTx),
        Some(vec![1]),
        decode,
    ) {
        EventStep::Gone(finished) => {
            assert_eq!(finished.peripheral, Some(1));
            finished.delivery.expect("the dialer waits").send();
        }
        _ => panic!("expected the peer to be gone"),
    }
    assert!(matches!(
        dialer.completion_rx.try_recv(),
        Ok(DialCompletion::Failed)
    ));
    assert!(matches!(
        state.did_update_value(peer, true, None, None, decode),
        EventStep::Gone(_)
    ));
}

#[test]
fn closed_sessions_are_reaped_and_their_links_cancelled_once() {
    let mut state = state();
    let dialer = dial(&mut state, 1);
    let _kept = dial(&mut state, 2);
    drop(dialer);
    let connected = state.did_connect(true, peer_id(1), 10);
    assert!(!connected.discover_services);
    assert_eq!(connected.reaped.closed, vec![peer_id(1)]);
    assert_eq!(connected.reaped.cancel, vec![1]);
    assert_eq!(connected.reaped.deliveries.len(), 1);
    deliver_all(connected.reaped.deliveries);
    let again = state.reap_closed_sessions_at(11);
    assert!(again.closed.is_empty());
    assert!(state.sessions.contains_key(peer_id(2)));

    let mut stale = discovery(1, CandidateStrength::Strong);
    stale.link_state = PeripheralLinkState::Connected;
    let (_, action) = state.did_discover(true, stale, 12);
    assert_eq!(action, DiscoverAction::Ignore);
    let mut later = discovery(1, CandidateStrength::Strong);
    later.link_state = PeripheralLinkState::Connected;
    let (_, action) = state.did_discover(true, later, 40_000);
    assert_eq!(action, DiscoverAction::CancelStale);
    assert!(state.did_disconnect(peer_id(1)).is_none());
    let mut gone = discovery(1, CandidateStrength::Strong);
    gone.link_state = PeripheralLinkState::Connected;
    let (_, action) = state.did_discover(true, gone, 40_001);
    assert_eq!(action, DiscoverAction::CancelStale);
}

#[test]
fn radio_shutdown_fails_every_session_and_cancels_owned_links_once() {
    let mut state = state();
    let mut first = dial(&mut state, 1);
    let mut second = dial(&mut state, 2);
    let (_, action) = state.did_discover(true, discovery(3, CandidateStrength::Strong), 0);
    assert_eq!(action, DiscoverAction::Sighted);

    let shutdown = state.set_radio_enabled(false);
    let mut cancelled = shutdown.cancel;
    cancelled.sort_unstable();
    assert_eq!(cancelled, vec![1, 2]);
    assert_eq!(shutdown.peers.len(), 2);
    deliver_all(shutdown.deliveries);
    assert!(matches!(
        first.completion_rx.try_recv(),
        Ok(DialCompletion::Failed)
    ));
    assert!(matches!(
        second.completion_rx.try_recv(),
        Ok(DialCompletion::Failed)
    ));
    assert!(state.did_connect(false, peer_id(1), 0).cancel.is_none());
    assert_eq!(state.offer_restored(false), None);
    assert_eq!(state.pop_sighting(false), (None, false));
    assert!(matches!(
        state.claim(false, peer_id(1).address(), 0).1,
        CentralDialCandidate::Missing
    ));
    let (_, action) = state.did_discover(false, discovery(1, CandidateStrength::Strong), 0);
    assert_eq!(action, DiscoverAction::Ignore);
    let enabled = state.set_radio_enabled(true);
    assert!(enabled.cancel.is_empty() && enabled.deliveries.is_empty());
}

#[test]
fn restored_peripherals_are_adopted_while_there_is_room() {
    let mut state = state();
    let restored: VecDeque<RestoredPeripheral<u16>> = (1..=3)
        .map(|value| RestoredPeripheral {
            peer_id: peer_id(value),
            peripheral: value,
        })
        .collect();
    assert_eq!(
        state.restore_peripherals(true, restored),
        vec![
            RestoreAction::Attach,
            RestoreAction::Attach,
            RestoreAction::Cancel,
        ]
    );
    let buffered = state.did_update_value(
        peer_id(1),
        false,
        Some(CharacteristicRole::Data),
        Some(vec![5]),
        decode,
    );
    assert!(matches!(buffered, EventStep::Stays(None)));
    let control = state.did_update_value(peer_id(1), false, None, Some(vec![3, 9]), decode);
    assert!(matches!(control, EventStep::Stays(None)));
    assert_eq!(state.offer_restored(true), Some(peer_id(1)));
    assert!(matches!(
        state.claim(true, peer_id(1).address(), 0).1,
        CentralDialCandidate::Ready {
            peripheral: 1,
            restored: true,
            ..
        }
    ));
    let (session, mut dialer) = session(peer_id(1));
    let facts = facts(PeripheralLinkState::Connected, false, false, true);
    let step = state.begin_dial(true, peer_id(1), session, facts, 0);
    assert_eq!(step.start, Some(DialStart::Discover));
    assert_eq!(dialer.data_rx.try_recv(), Ok(vec![5]));
    assert_eq!(dialer.control_rx.try_recv(), Ok(9));

    let again: VecDeque<RestoredPeripheral<u16>> = [1, 2]
        .into_iter()
        .map(|value| RestoredPeripheral {
            peer_id: peer_id(value),
            peripheral: value + 10,
        })
        .collect();
    assert_eq!(
        state.restore_peripherals(true, again),
        vec![RestoreAction::Ignore, RestoreAction::Attach]
    );
    let off: VecDeque<RestoredPeripheral<u16>> = [RestoredPeripheral {
        peer_id: peer_id(2),
        peripheral: 2,
    }]
    .into_iter()
    .collect();
    assert_eq!(
        state.restore_peripherals(false, off),
        vec![RestoreAction::DetachAndCancel]
    );
    assert_eq!(state.offer_restored(true), None);
}

#[test]
fn a_dial_is_rejected_where_it_must_not_begin() {
    let mut state = state();
    let _dialer = dial(&mut state, 1);
    let (second, mut second_dialer) = session(peer_id(1));
    let step = state.begin_session(true, peer_id(1), second, 0);
    assert!(!step.began);
    assert!(step.cancel.is_none());
    step.delivery.expect("the dialer waits").send();
    assert!(matches!(
        second_dialer.completion_rx.try_recv(),
        Ok(DialCompletion::Rejected(
            DialRejection::ExistingCentralSession
        ))
    ));

    let (unknown, mut unknown_dialer) = session(peer_id(7));
    let step = state.begin_session(true, peer_id(7), unknown, 0);
    assert!(!step.began);
    step.delivery.expect("the dialer waits").send();
    assert!(matches!(
        unknown_dialer.completion_rx.try_recv(),
        Ok(DialCompletion::Failed)
    ));

    let (off, mut off_dialer) = session(peer_id(1));
    let step = state.begin_session(false, peer_id(1), off, 0);
    assert_eq!(step.cancel, Some(1));
    step.delivery.expect("the dialer waits").send();
    assert!(matches!(
        off_dialer.completion_rx.try_recv(),
        Ok(DialCompletion::Rejected(DialRejection::RadioOff))
    ));

    let (_, action) = state.did_discover(true, discovery(3, CandidateStrength::Strong), 0);
    assert_eq!(action, DiscoverAction::Sighted);
    let (yielding, mut yielding_dialer) = session(peer_id(3));
    let facts = facts(PeripheralLinkState::Disconnected, false, true, false);
    let step = state.begin_dial(true, peer_id(3), yielding, facts, 0);
    assert_eq!(step.start, None);
    assert!(!step.cancel_dialed);
    step.begin.delivery.expect("the dialer waits").send();
    assert!(matches!(
        yielding_dialer.completion_rx.try_recv(),
        Ok(DialCompletion::Rejected(
            DialRejection::YieldToInboundSession
        ))
    ));
    assert!(state.discard_peer(peer_id(3)).is_none());
    assert!(state.did_fail_to_connect(peer_id(3)).is_none());
}

#[test]
fn writes_go_through_the_session_of_their_peer() {
    let mut state = state();
    let _dialer = dial(&mut state, 1);
    let request = |reply: &'static str, mode: GattWriteMode| GattWriteRequest {
        characteristic: 2_u8,
        mode,
        bytes: vec![1],
        reply,
    };
    assert!(matches!(
        state.submit_write(true, peer_id(9), request("nobody", GattWriteMode::WithResponse), true),
        WriteStep::Refused { report }
            if report.reply == "nobody" && report.result == Err(MacosBleError::Closed)
    ));
    assert!(matches!(
        state.submit_write(false, peer_id(1), request("off", GattWriteMode::WithResponse), true),
        WriteStep::Refused { report } if report.result == Err(MacosBleError::Closed)
    ));
    assert!(matches!(
        state.submit_write(true, peer_id(1), request("sent", GattWriteMode::WithResponse), true),
        WriteStep::Acknowledged { characteristic: 2, .. }
    ));
    assert!(state.did_write_value(peer_id(1), &3, false).is_none());
    let report = state
        .did_write_value(peer_id(1), &2, true)
        .expect("the write was outstanding");
    assert_eq!(report.reply, "sent");
    assert_eq!(report.result, Err(MacosBleError::GattWriteFailed));
    assert!(matches!(
        state.submit_write(
            true,
            peer_id(1),
            request("held", GattWriteMode::WithoutResponse),
            false
        ),
        WriteStep::Idle
    ));
    let waiting = |_: &&'static str| false;
    assert!(matches!(
        state.drain_unacknowledged_write(peer_id(9), waiting, true),
        WriteStep::Idle
    ));
    assert!(matches!(
        state.drain_unacknowledged_write(peer_id(1), waiting, true),
        WriteStep::Unacknowledged { report, .. } if report.reply == "held"
    ));
}

#[test]
fn sightings_carry_the_signal_of_the_latest_discovery() {
    let mut state = state();
    assert_eq!(rssi_from_dbm(127), None);
    assert_eq!(rssi_from_dbm(126), Some(126));
    assert_eq!(rssi_from_dbm(-128), Some(-128));
    assert_eq!(rssi_from_dbm(-129), None);
    let (_, action) = state.did_discover(true, discovery(1, CandidateStrength::Weak), 0);
    assert_eq!(action, DiscoverAction::Sighted);
    let (_, action) = state.did_discover(true, discovery(2, CandidateStrength::Weak), 0);
    assert_eq!(action, DiscoverAction::Sighted);
    assert_eq!(
        state.pop_sighting(true),
        (
            Some(Sighting {
                address: peer_id(1).address(),
                rssi: Some(-40),
            }),
            true,
        )
    );
}

#[test]
fn characteristics_are_sorted_by_their_uuid() {
    let short = |value: u16| BleUuid::Bit16(value).to_bytes();
    let uuids = ProfileUuids {
        control: short(0x0102),
        data: short(0x0103),
        columba_rx: short(0x0104),
        columba_tx: short(0x0105),
        columba_identity: BleUuid::Bit128([7; 16]).to_bytes(),
    };
    assert_eq!(uuids.control, vec![1, 2]);
    assert_eq!(uuids.columba_identity, vec![7; 16]);
    assert_eq!(
        uuids.role(&vec![1, 4]),
        Some(CharacteristicRole::ColumbaRx)
    );
    assert_eq!(uuids.role(&vec![1]), None);
    let found = |uuid: Vec<u8>, characteristic: u8| FoundCharacteristic {
        uuid,
        characteristic,
    };
    let profile = DiscoveredProfile::from_service(
        &uuids,
        vec![
            found(vec![1, 3], 1),
            found(vec![9, 9], 2),
            found(vec![1, 3], 3),
            found(vec![7; 16], 4),
        ],
    );
    assert_eq!(profile.data, Some(3));
    assert_eq!(profile.columba_identity, Some(4));
    assert_eq!(profile.control, None);
    assert_eq!(profile.columba_rx, None);
    assert_eq!(profile.columba_tx, None);

    let control = characteristic_plan(CharacteristicRole::Control);
    assert!(control.write && control.notify && !control.read && !control.readable);
    let identity = characteristic_plan(CharacteristicRole::ColumbaIdentity);
    assert!(identity.read && identity.readable && identity.holds_identity && !identity.write);
    let tx = characteristic_plan(CharacteristicRole::ColumbaTx);
    assert!(tx.read && tx.notify && !tx.write);
    let rx = characteristic_plan(CharacteristicRole::ColumbaRx);
    assert!(rx.write_without_response && !rx.notify);
}

#[test]
fn a_platform_sizes_its_central_role() {
    let mut ios: State = central_state(ApplePlatform::Ios, 64);
    assert_eq!(ios.recovery, StaleLinkRecovery::Disabled);
    for value in 1..=28 {
        let (_, action) = ios.did_discover(true, discovery(value, CandidateStrength::Weak), 0);
        assert_eq!(action, DiscoverAction::Sighted);
    }
    assert_eq!(ios.registry.peripheral_len(), 28);
    let (_, action) = ios.did_discover(true, discovery(29, CandidateStrength::Weak), 0);
    assert_eq!(action, DiscoverAction::Sighted);
    assert_eq!(ios.registry.peripheral_len(), 28);
    let mut connected = discovery(30, CandidateStrength::Weak);
    connected.link_state = PeripheralLinkState::Connected;
    let (_, action) = ios.did_discover(true, connected, 0);
    assert_eq!(action, DiscoverAction::Ignore);

    let macos: State = central_state(ApplePlatform::Macos, 64);
    assert_eq!(macos.recovery, StaleLinkRecovery::Enabled);
    assert!(is_system_connected(&vec![peer_id(1), peer_id(2)], peer_id(2)));
    assert!(!is_system_connected(&vec![peer_id(1)], peer_id(2)));
}
