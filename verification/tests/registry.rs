use bluetooth_auto::peer::{BleAddress, CoreBluetoothPeerId, Sighting};
use bluetooth_auto::recent_set::BoundedRecentSet;
use bluetooth_auto::registry::CentralPeerRegistry;
use bluetooth_auto::registry_model::{
    CentralDialCandidate, RestoredAdmission, RestoredBufferResult,
};
use bluetooth_auto::restored::{RestoredCallbackBuffer, CENTRAL_CONTROL_INBOUND_CAPACITY};
use bluetooth_auto::session::{CentralPeerSession, DialCompletion};
use tokio::sync::{mpsc, oneshot};

const BUDGET: usize = 4096;

#[derive(Clone, Copy, Debug, PartialEq, Eq)]
struct Control([u8; 2]);

type Registry<P> = CentralPeerRegistry<P, Control>;
type Session = CentralPeerSession<Control, u8, mpsc::Sender<Vec<u8>>, ()>;

fn peer_id(value: u16) -> CoreBluetoothPeerId {
    let mut bytes = [0; 16];
    bytes[..2].copy_from_slice(&value.to_le_bytes());
    CoreBluetoothPeerId(bytes)
}

fn colliding_peer_id(suffix: u8) -> CoreBluetoothPeerId {
    prefixed_peer_id(0x5a, suffix)
}

fn prefixed_peer_id(prefix: u8, suffix: u8) -> CoreBluetoothPeerId {
    let mut bytes = [prefix; 16];
    bytes[15] = suffix;
    CoreBluetoothPeerId(bytes)
}

fn claim(registry: &mut Registry<u8>, peer_id: CoreBluetoothPeerId, expected: u8) {
    match registry.claim(peer_id.address()) {
        CentralDialCandidate::Ready {
            peer_id: claimed,
            peripheral,
            restored,
            ..
        } => {
            assert!(claimed == peer_id);
            assert_eq!(peripheral, expected);
            assert!(!restored);
        }
        CentralDialCandidate::Busy | CentralDialCandidate::Missing => {
            panic!("expected a ready dial candidate")
        }
    }
}

#[test]
fn radio_shutdown_drains_only_connections_owned_by_the_central_registry() {
    let observed = prefixed_peer_id(0x10, 1);
    let dialing = prefixed_peer_id(0x20, 1);
    let active = prefixed_peer_id(0x30, 1);
    let restored = prefixed_peer_id(0x40, 1);
    let mut registry: Registry<u8> = CentralPeerRegistry::new(4, 1, BUDGET);

    assert!(registry.observe(observed, 10, None));
    assert!(registry.observe(dialing, 20, None));
    claim(&mut registry, dialing, 20);
    assert!(registry.observe(active, 30, None));
    claim(&mut registry, active, 30);
    assert!(matches!(registry.begin_session(active), Ok(None)));
    assert_eq!(
        registry.admit_restored(restored, 40),
        RestoredAdmission::Admitted
    );

    let mut owned = registry.drain_owned();
    owned.sort_unstable();
    assert_eq!(owned, vec![20, 30, 40]);
    assert_eq!(registry.peripheral_len(), 0);
    assert_eq!(registry.restored_len(), 0);
}

#[test]
fn repeated_radio_shutdown_reclaims_registry_and_recent_set_capacity() {
    let mut registry: Registry<u8> = CentralPeerRegistry::new(1, 1, BUDGET);
    let mut seen = BoundedRecentSet::new(1);

    for cycle in 0..8 {
        let peer_id = prefixed_peer_id(cycle, cycle);
        assert_eq!(
            registry.admit_restored(peer_id, cycle),
            RestoredAdmission::Admitted
        );
        assert!(seen.insert(peer_id.address()));

        assert_eq!(registry.drain_owned(), vec![cycle]);
        seen.clear();
        assert_eq!(registry.peripheral_len(), 0);
        assert_eq!(registry.restored_len(), 0);
        assert_eq!(seen.len(), 0);
    }
}

#[test]
fn central_registry_holds_restored_capacity_through_offer_and_claim() {
    let first = peer_id(1);
    let second = peer_id(2);
    let third = peer_id(3);
    let mut registry: Registry<u16> = CentralPeerRegistry::new(3, 2, BUDGET);

    assert_eq!(
        registry.admit_restored(first, 10_u16),
        RestoredAdmission::Admitted
    );
    assert_eq!(
        registry.admit_restored(second, 20),
        RestoredAdmission::Admitted
    );
    assert_eq!(
        registry.admit_restored(first, 11),
        RestoredAdmission::Updated
    );
    assert_eq!(registry.peripheral_len(), 2);
    assert_eq!(registry.restored_len(), 2);
    assert_eq!(registry.admit_restored(third, 30), RestoredAdmission::Full);

    assert!(registry.offer_restored() == Some(first));
    assert_eq!(
        registry.admit_restored(first, 12),
        RestoredAdmission::AlreadyOwned
    );
    assert_eq!(registry.admit_restored(third, 30), RestoredAdmission::Full);
    assert!(matches!(
        registry.claim(first.address()),
        CentralDialCandidate::Ready {
            peer_id,
            peripheral: 11,
            restored: true,
            ..
        } if peer_id == first
    ));
    assert_eq!(
        registry.admit_restored(first, 13),
        RestoredAdmission::AlreadyOwned
    );
    assert_eq!(registry.admit_restored(third, 30), RestoredAdmission::Full);

    assert!(matches!(registry.begin_session(first), Ok(Some(_))));
    assert_eq!(registry.restored_len(), 1);
    assert_eq!(
        registry.admit_restored(third, 30),
        RestoredAdmission::Admitted
    );
    assert_eq!(registry.remove_peer(first), Some(11));
    assert_eq!(registry.remove_peer(first), None);
    assert_eq!(registry.peripheral_len(), 2);
}

#[test]
fn central_registry_transfers_callbacks_once_and_releases_restored_capacity() {
    let first = peer_id(1);
    let second = peer_id(2);
    let control = Control([0x03, 0x01]);
    let mut registry: Registry<u16> = CentralPeerRegistry::new(2, 1, BUDGET);

    assert_eq!(
        registry.admit_restored(first, 10_u16),
        RestoredAdmission::Admitted
    );
    assert!(matches!(
        registry.buffer_restored_control(first, control),
        RestoredBufferResult::Buffered
    ));
    assert!(registry.offer_restored() == Some(first));
    assert!(matches!(
        registry.buffer_restored_data(first, vec![1, 2]),
        RestoredBufferResult::Buffered
    ));
    assert!(matches!(
        registry.claim(first.address()),
        CentralDialCandidate::Ready {
            peripheral: 10,
            restored: true,
            ..
        }
    ));
    assert!(matches!(
        registry.buffer_restored_data(first, vec![3]),
        RestoredBufferResult::Buffered
    ));

    let callbacks = registry
        .begin_session(first)
        .expect("the claimed peer begins")
        .expect("the restored peer transfers its callback buffer");
    assert_eq!(registry.restored_len(), 0);
    assert!(matches!(
        registry.buffer_restored_control(first, control),
        RestoredBufferResult::NotRestored(_)
    ));
    assert_eq!(
        registry.admit_restored(second, 20),
        RestoredAdmission::Admitted
    );

    let (control_tx, mut control_rx) = mpsc::channel(CENTRAL_CONTROL_INBOUND_CAPACITY);
    let (completion_tx, _completion_rx) = oneshot::channel::<DialCompletion<u8>>();
    let (data_tx, mut data_rx) = mpsc::channel(8);
    let mut session: Session =
        CentralPeerSession::new(first.address(), control_tx, completion_tx, data_tx);
    assert!(session.restore_callbacks(callbacks));
    assert_eq!(control_rx.try_recv(), Ok(control));
    assert_eq!(data_rx.try_recv(), Ok(vec![1, 2]));
    assert_eq!(data_rx.try_recv(), Ok(vec![3]));
}

#[test]
fn central_registry_evicts_only_observations_and_deduplicates_synthetic_addresses() {
    let first = peer_id(1);
    let second = peer_id(2);
    let third = peer_id(3);
    let fourth = peer_id(4);
    let fifth = peer_id(5);
    let mut registry: Registry<u16> = CentralPeerRegistry::new(2, 0, BUDGET);

    assert!(registry.observe(first, 10_u16, Some(-80)));
    assert!(registry.observe(second, 20, Some(-70)));
    assert!(registry.observe(first, 11, Some(-60)));
    assert!(registry.observe(third, 30, Some(-50)));
    assert_eq!(
        registry.pop_sighting(),
        (
            Some(Sighting {
                address: first.address(),
                rssi: Some(-60),
            }),
            true,
        )
    );
    assert_eq!(
        registry.pop_sighting(),
        (
            Some(Sighting {
                address: third.address(),
                rssi: Some(-50),
            }),
            false,
        )
    );
    assert_eq!(registry.pop_sighting(), (None, false));
    assert!(matches!(
        registry.claim(second.address()),
        CentralDialCandidate::Missing
    ));
    assert!(matches!(
        registry.claim(first.address()),
        CentralDialCandidate::Ready { peripheral: 11, .. }
    ));
    assert!(registry.observe(fourth, 40, None));
    assert!(matches!(
        registry.claim(fourth.address()),
        CentralDialCandidate::Ready { .. }
    ));
    assert!(!registry.observe(fifth, 50, None));
    assert_eq!(registry.peripheral_len(), 2);

    let original = colliding_peer_id(1);
    let replacement = colliding_peer_id(2);
    let mut collision: Registry<u8> = CentralPeerRegistry::new(2, 0, BUDGET);
    assert!(collision.observe(original, 1_u8, None));
    assert!(collision.observe(replacement, 2, None));
    assert!(matches!(
        collision.claim(original.address()),
        CentralDialCandidate::Ready {
            peer_id,
            peripheral: 2,
            ..
        } if peer_id == replacement
    ));
    assert!(!collision.observe(original, 3, None));
}

#[test]
fn next_sighting_history_is_lru_bounded() {
    let mut seen = BoundedRecentSet::new(2);
    assert!(seen.insert([1; 6]));
    assert!(seen.insert([2; 6]));
    assert!(!seen.insert([1; 6]));
    assert!(seen.insert([3; 6]));
    assert_eq!(seen.len(), 2);
    assert!(seen.insert([2; 6]));
    assert_eq!(seen.len(), 2);
    assert_eq!(seen.pop_front(), Some([3; 6]));
    assert_eq!(seen.pop_front(), Some([2; 6]));
}

#[test]
fn restored_value_callbacks_are_handed_to_the_admitted_session() {
    let control = Control([0x03, 0x01]);
    let mut callbacks = RestoredCallbackBuffer::new(BUDGET);
    assert!(callbacks.buffer_control(control));
    assert!(callbacks.buffer_data(vec![1, 2, 3]));

    let (control_tx, mut control_rx) = mpsc::channel(CENTRAL_CONTROL_INBOUND_CAPACITY);
    let (completion_tx, _completion_rx) = oneshot::channel::<DialCompletion<u8>>();
    let (data_tx, mut data_rx) = mpsc::channel(8);
    let mut session: Session =
        CentralPeerSession::new(BleAddress::new([1; 6]), control_tx, completion_tx, data_tx);

    assert!(session.restore_callbacks(callbacks));
    assert_eq!(control_rx.try_recv(), Ok(control));
    assert_eq!(data_rx.try_recv(), Ok(vec![1, 2, 3]));
}

#[test]
fn restored_values_arrive_in_order_until_one_is_refused() {
    let first = Control([0x03, 0x01]);
    let second = Control([0x03, 0x02]);
    let restored = |control_capacity: usize| {
        let mut callbacks = RestoredCallbackBuffer::new(BUDGET);
        assert!(callbacks.buffer_control(first));
        assert!(callbacks.buffer_control(second));
        assert!(callbacks.buffer_data(vec![1]));
        assert!(callbacks.buffer_data(vec![2]));
        let (control_tx, control_rx) = mpsc::channel(control_capacity);
        let (completion_tx, _completion_rx) = oneshot::channel::<DialCompletion<u8>>();
        let (data_tx, data_rx) = mpsc::channel(8);
        let mut session: Session =
            CentralPeerSession::new(BleAddress::new([1; 6]), control_tx, completion_tx, data_tx);
        let handed_over = session.restore_callbacks(callbacks);
        (handed_over, control_rx, data_rx)
    };

    let (handed_over, mut control_rx, mut data_rx) = restored(2);
    assert!(handed_over);
    assert_eq!(control_rx.try_recv(), Ok(first));
    assert_eq!(control_rx.try_recv(), Ok(second));
    assert!(control_rx.try_recv().is_err());
    assert_eq!(data_rx.try_recv(), Ok(vec![1]));
    assert_eq!(data_rx.try_recv(), Ok(vec![2]));
    assert!(data_rx.try_recv().is_err());

    let (handed_over, mut control_rx, mut data_rx) = restored(1);
    assert!(!handed_over);
    assert_eq!(control_rx.try_recv(), Ok(first));
    assert!(control_rx.try_recv().is_err());
    assert!(data_rx.try_recv().is_err());
}

#[test]
fn restored_callback_overflow_fails_instead_of_skipping_protocol_input() {
    let control = Control([0x03, 0x01]);
    let mut controls = RestoredCallbackBuffer::new(BUDGET);
    for _ in 0..CENTRAL_CONTROL_INBOUND_CAPACITY {
        assert!(controls.buffer_control(control));
    }
    assert!(!controls.buffer_control(control));
    let (control_tx, _control_rx) = mpsc::channel(CENTRAL_CONTROL_INBOUND_CAPACITY);
    let (completion_tx, _completion_rx) = oneshot::channel::<DialCompletion<u8>>();
    let (data_tx, _data_rx) = mpsc::channel(8);
    let mut session: Session =
        CentralPeerSession::new(BleAddress::new([1; 6]), control_tx, completion_tx, data_tx);
    assert!(!session.restore_callbacks(controls));

    let mut data: RestoredCallbackBuffer<Control> = RestoredCallbackBuffer::new(BUDGET);
    assert!(!data.buffer_data(vec![0; BUDGET + 1]));
}

#[test]
fn callback_budget_charges_empty_fragments_and_is_filled_exactly() {
    let mut buffer: RestoredCallbackBuffer<Control> = RestoredCallbackBuffer::new(3);
    assert!(buffer.buffer_data(vec![7]));
    assert!(buffer.buffer_data(vec![]));
    assert!(buffer.buffer_data(vec![9]));
    assert!(!buffer.failed());
    assert!(!buffer.buffer_data(vec![]));
    assert!(buffer.failed());
    assert!(!buffer.buffer_data(vec![]));
    assert!(!buffer.buffer_control(Control([0, 0])));
    let (controls, data) = buffer.into_parts();
    assert!(controls.is_empty());
    assert!(data.is_empty());
}

#[test]
fn restored_buffer_results_tell_overflow_from_an_earlier_failure() {
    let peer = peer_id(9);
    let mut registry: Registry<u16> = CentralPeerRegistry::new(1, 1, 2);
    assert_eq!(registry.admit_restored(peer, 1), RestoredAdmission::Admitted);
    assert!(matches!(
        registry.buffer_restored_data(peer, vec![1, 2, 3]),
        RestoredBufferResult::Overflowed
    ));
    assert!(matches!(
        registry.buffer_restored_data(peer, vec![1]),
        RestoredBufferResult::AlreadyFailed
    ));
    assert!(matches!(
        registry.buffer_restored_control(peer, Control([0, 0])),
        RestoredBufferResult::AlreadyFailed
    ));
    assert!(matches!(
        registry.buffer_restored_data(peer_id(8), vec![4]),
        RestoredBufferResult::NotRestored(data) if data == vec![4]
    ));
}

#[test]
fn owned_peripherals_outlive_any_number_of_observations() {
    let owned = peer_id(1);
    let mut registry: Registry<u16> = CentralPeerRegistry::new(2, 1, BUDGET);
    assert!(registry.observe(owned, 1, None));
    assert!(matches!(
        registry.claim(owned.address()),
        CentralDialCandidate::Ready { peripheral: 1, .. }
    ));
    for other in 2..40 {
        assert!(registry.observe(peer_id(other), other, None));
        assert_eq!(registry.peripheral_len(), 2);
    }
    assert!(matches!(
        registry.claim(owned.address()),
        CentralDialCandidate::Busy
    ));
    assert!(matches!(registry.begin_session(owned), Ok(None)));
    assert!(registry.begin_session(owned).is_err());
    assert_eq!(registry.remove_peer(owned), Some(1));
    assert!(registry.begin_session(owned).is_err());
}

#[test]
fn a_registry_without_room_takes_nothing() {
    let mut registry: Registry<u16> = CentralPeerRegistry::new(0, 3, BUDGET);
    assert!(!registry.observe(peer_id(1), 1, None));
    assert_eq!(
        registry.admit_restored(peer_id(1), 1),
        RestoredAdmission::Full
    );
    assert_eq!(registry.offer_restored(), None);
    let mut recent = BoundedRecentSet::new(0);
    assert!(!recent.insert(1_u8));
    assert_eq!(recent.len(), 0);
}
