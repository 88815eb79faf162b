use bluetooth_auto::dial::{
    begin_dial, dial_admission, DialAdmission, DialFacts, DialPlan, DialRejection, DialStart,
    PeripheralLinkState,
};
use bluetooth_auto::discovery::{
    candidate_strength, discover_disposition, CandidateStrength, DiscoverDisposition,
    DiscoveryGuard, SessionPresence, StaleCancellation, StaleLinkRecovery,
};
use bluetooth_auto::gatt_write::{write_admission, GattWriteAdmission, GattWriteMode};
use bluetooth_auto::peer::CoreBluetoothPeerId;
use bluetooth_auto::peer_map::PeerMap;
use bluetooth_auto::peripheral::has_session_for_peer;
use bluetooth_auto::radio::{
    advertising_op, advertising_step, central_peripheral_capacity, scan_lease, scan_op,
    scanning_step, AdvertisingOp, ScanLease, ScanOp,
};
use bluetooth_auto::restoration::{
    legacy_restoration_identifiers, CoreBluetoothRestorationIdentifiers,
    CoreBluetoothRestorationIdentifiersError,
};

fn peer_id(value: u16) -> CoreBluetoothPeerId {
    let mut bytes = [0; 16];
    bytes[..2].copy_from_slice(&value.to_le_bytes());
    CoreBluetoothPeerId(bytes)
}

fn facts(
    link_state: PeripheralLinkState,
    system_connected: bool,
    target_has_inbound_session: bool,
    restored_connection: bool,
) -> DialFacts {
    DialFacts {
        link_state,
        system_connected,
        target_has_inbound_session,
        restored_connection,
    }
}

#[test]
fn restoration_identifiers_are_nonempty_and_distinct(
) -> Result<(), CoreBluetoothRestorationIdentifiersError> {
    assert_eq!(
        CoreBluetoothRestorationIdentifiers::new("", "peripheral"),
        Err(CoreBluetoothRestorationIdentifiersError::EmptyCentral)
    );
    assert_eq!(
        CoreBluetoothRestorationIdentifiers::new("central", ""),
        Err(CoreBluetoothRestorationIdentifiersError::EmptyPeripheral)
    );
    assert_eq!(
        CoreBluetoothRestorationIdentifiers::new("shared", "shared"),
        Err(CoreBluetoothRestorationIdentifiersError::Duplicate)
    );

    let identifiers = CoreBluetoothRestorationIdentifiers::new("central", "peripheral")?;
    assert_eq!(identifiers.central(), "central");
    assert_eq!(identifiers.peripheral(), "peripheral");
    Ok(())
}

#[test]
fn legacy_preparation_keeps_personal_hopspot_identifiers() {
    let identifiers = legacy_restoration_identifiers();
    assert_eq!(identifiers.central(), "com.personal.prns.ble.central");
    assert_eq!(identifiers.peripheral(), "com.personal.prns.ble.peripheral");
}

#[test]
fn restoration_errors_say_what_is_wrong() {
    assert_eq!(
        CoreBluetoothRestorationIdentifiersError::EmptyCentral.message(),
        "the CoreBluetooth central restoration identifier must not be empty"
    );
    assert_eq!(
        CoreBluetoothRestorationIdentifiersError::EmptyPeripheral.message(),
        "the CoreBluetooth peripheral restoration identifier must not be empty"
    );
    assert_eq!(
        CoreBluetoothRestorationIdentifiersError::Duplicate.message(),
        "the CoreBluetooth central and peripheral restoration identifiers must differ"
    );
}

#[test]
fn discovery_recovery_distinguishes_owned_stale_and_transitioning_links() {
    assert_eq!(
        discover_disposition(
            PeripheralLinkState::Disconnected,
            SessionPresence::Absent,
            StaleCancellation::Idle,
            StaleLinkRecovery::Enabled,
        ),
        DiscoverDisposition::Adopt
    );
    for state in [
        PeripheralLinkState::Connecting,
        PeripheralLinkState::Connected,
    ] {
        assert_eq!(
            discover_disposition(
                state,
                SessionPresence::Present,
                StaleCancellation::Idle,
                StaleLinkRecovery::Enabled,
            ),
            DiscoverDisposition::IgnoreOwned
        );
        assert_eq!(
            discover_disposition(
                state,
                SessionPresence::Absent,
                StaleCancellation::Idle,
                StaleLinkRecovery::Enabled,
            ),
            DiscoverDisposition::CancelStale
        );
        assert_eq!(
            discover_disposition(
                state,
                SessionPresence::Absent,
                StaleCancellation::InFlight,
                StaleLinkRecovery::Enabled,
            ),
            DiscoverDisposition::WaitForDisconnect
        );
        assert_eq!(
            discover_disposition(
                state,
                SessionPresence::Absent,
                StaleCancellation::Idle,
                StaleLinkRecovery::Disabled,
            ),
            DiscoverDisposition::WaitForDisconnect
        );
    }
    for state in [
        PeripheralLinkState::Disconnecting,
        PeripheralLinkState::Unknown,
    ] {
        assert_eq!(
            discover_disposition(
                state,
                SessionPresence::Absent,
                StaleCancellation::Idle,
                StaleLinkRecovery::Enabled,
            ),
            DiscoverDisposition::WaitForDisconnect
        );
    }
}

#[test]
fn candidate_strength_accepts_prns_name_or_manufacturer_marker() {
    assert_eq!(candidate_strength(true, None), CandidateStrength::Strong);
    assert_eq!(
        candidate_strength(false, Some(&[0xff, 0xff, 0x03, 0x00])),
        CandidateStrength::Strong
    );
    assert_eq!(
        candidate_strength(false, Some(&[0x4c, 0x00, 0x03, 0x00])),
        CandidateStrength::Weak
    );
    assert_eq!(candidate_strength(false, None), CandidateStrength::Weak);
}

#[test]
fn service_miss_suppresses_only_weak_candidates_until_expiry() {
    let now: u64 = 1_000;
    let peer = peer_id(1);
    let mut guard = DiscoveryGuard::new();

    assert!(guard.admit_candidate(peer, CandidateStrength::Weak, now));
    guard.record_service_miss(peer, now);
    assert!(!guard.admit_candidate(peer, CandidateStrength::Weak, now + 299_000));
    assert!(guard.admit_candidate(peer, CandidateStrength::Strong, now + 299_000));

    guard.record_service_miss(peer, now);
    assert!(guard.admit_candidate(peer, CandidateStrength::Weak, now + 300_000));
}

#[test]
fn discovery_guard_bounds_service_misses_and_stale_cancellation_retries() {
    let now: u64 = 1_000;
    let mut guard = DiscoveryGuard::new();
    for value in 0..=255 {
        guard.record_service_miss(peer_id(value), now);
    }
    assert_eq!(guard.suppressed_len(), 256);
    guard.record_service_miss(peer_id(256), now + 1_000);
    assert_eq!(guard.suppressed_len(), 256);

    let peer = peer_id(500);
    assert!(!guard.cancellation_recent(peer, now));
    guard.record_stale_cancellation(peer, now);
    assert!(guard.cancellation_recent(peer, now + 29_000));
    assert!(!guard.cancellation_recent(peer, now + 30_000));
}

#[test]
fn a_full_guard_forgets_the_miss_recorded_longest_ago() {
    let mut guard = DiscoveryGuard::new();
    for value in 0..257 {
        guard.record_service_miss(peer_id(value), u64::from(value));
    }
    assert!(guard.admit_candidate(peer_id(0), CandidateStrength::Weak, 300));
    assert!(!guard.admit_candidate(peer_id(1), CandidateStrength::Weak, 300));
    guard.record_stale_cancellation(peer_id(1), 300);
    guard.clear_stale_cancellation(peer_id(1));
    assert!(!guard.cancellation_recent(peer_id(1), 301));
}

#[test]
fn dial_admission_is_scoped_to_the_target_peer() {
    let inbound_peer = peer_id(1);
    let unrelated_peer = peer_id(2);
    let mut inbound_sessions = PeerMap::new();
    inbound_sessions.insert(inbound_peer, ());

    assert_eq!(
        dial_admission(true, false, None),
        DialAdmission::YieldToSystemConnection
    );
    assert_eq!(
        dial_admission(
            false,
            has_session_for_peer(&inbound_sessions, inbound_peer),
            None,
        ),
        DialAdmission::YieldToInboundSession
    );
    assert_eq!(
        dial_admission(
            false,
            has_session_for_peer(&inbound_sessions, unrelated_peer),
            None,
        ),
        DialAdmission::AttachCentralSession
    );
}

#[test]
fn restored_dial_admission_uses_the_exact_peripheral_state() {
    assert_eq!(
        dial_admission(false, false, Some(PeripheralLinkState::Connected)),
        DialAdmission::ResumeRestoredSession
    );
    assert_eq!(
        dial_admission(false, false, Some(PeripheralLinkState::Connecting)),
        DialAdmission::AwaitRestoredConnection
    );
    assert_eq!(
        dial_admission(false, false, Some(PeripheralLinkState::Disconnected)),
        DialAdmission::AttachCentralSession
    );
    assert_eq!(
        dial_admission(false, false, Some(PeripheralLinkState::Disconnecting)),
        DialAdmission::RejectRestoredConnection
    );
    assert_eq!(
        dial_admission(false, false, Some(PeripheralLinkState::Unknown)),
        DialAdmission::RejectRestoredConnection
    );
    assert_eq!(
        dial_admission(true, false, Some(PeripheralLinkState::Connecting)),
        DialAdmission::AwaitRestoredConnection
    );
    assert_eq!(
        dial_admission(false, true, Some(PeripheralLinkState::Connected),),
        DialAdmission::YieldToInboundSession
    );
    assert_eq!(
        dial_admission(true, true, None),
        DialAdmission::YieldToInboundSession
    );
}

#[test]
fn a_dial_plan_follows_its_admission() {
    assert_eq!(
        begin_dial(facts(PeripheralLinkState::Disconnected, true, false, false)),
        DialPlan::Reject {
            rejection: DialRejection::YieldToSystemConnection,
            cancel_connection: false,
        }
    );
    assert_eq!(
        begin_dial(facts(PeripheralLinkState::Disconnected, true, false, true)),
        DialPlan::Begin(DialStart::Connect)
    );
    assert_eq!(
        begin_dial(facts(PeripheralLinkState::Connected, false, false, true)),
        DialPlan::Begin(DialStart::Discover)
    );
    assert_eq!(
        begin_dial(facts(PeripheralLinkState::Connecting, false, false, true)),
        DialPlan::Begin(DialStart::AwaitConnection)
    );
    assert_eq!(
        begin_dial(facts(PeripheralLinkState::Connected, false, true, true)),
        DialPlan::Reject {
            rejection: DialRejection::YieldToInboundSession,
            cancel_connection: true,
        }
    );
    assert_eq!(
        begin_dial(facts(PeripheralLinkState::Connected, false, true, false)),
        DialPlan::Reject {
            rejection: DialRejection::YieldToInboundSession,
            cancel_connection: false,
        }
    );
    assert_eq!(
        begin_dial(facts(PeripheralLinkState::Unknown, false, false, true)),
        DialPlan::Reject {
            rejection: DialRejection::RestoredConnectionUnavailable,
            cancel_connection: false,
        }
    );
    assert_eq!(
        begin_dial(facts(PeripheralLinkState::Unknown, false, false, false)),
        DialPlan::Begin(DialStart::Connect)
    );
}

#[test]
fn scan_op_starts_restarts_and_stops_without_spurious_work() {
    assert_eq!(scan_op(true, false, false), ScanOp::Start);
    assert_eq!(scan_op(true, false, true), ScanOp::Start);
    assert_eq!(scan_op(true, true, false), ScanOp::Keep);
    assert_eq!(scan_op(true, true, true), ScanOp::Restart);
    assert_eq!(scan_op(false, true, false), ScanOp::Stop);
    assert_eq!(scan_op(false, true, true), ScanOp::Stop);
    assert_eq!(scan_op(false, false, true), ScanOp::Keep);
}

#[test]
fn scan_lease_restarts_only_an_enabled_scan_without_observed_activity() {
    assert_eq!(scan_lease(false, false), ScanLease::Inactive);
    assert_eq!(scan_lease(false, true), ScanLease::Inactive);
    assert_eq!(scan_lease(true, true), ScanLease::Renewed);
    assert_eq!(scan_lease(true, false), ScanLease::Expired);
}

#[test]
fn advertising_reconciliation_never_bounces_a_healthy_advertisement() {
    assert_eq!(advertising_op(true, false), AdvertisingOp::Start);
    assert_eq!(advertising_op(true, true), AdvertisingOp::Keep);
    assert_eq!(advertising_op(false, true), AdvertisingOp::Stop);
    assert_eq!(advertising_op(false, false), AdvertisingOp::Keep);
}

#[test]
fn nothing_is_started_while_the_radio_is_off() {
    assert_eq!(scanning_step(true, false, false, true), ScanOp::Keep);
    assert_eq!(scanning_step(false, false, true, false), ScanOp::Stop);
    assert_eq!(scanning_step(true, true, true, true), ScanOp::Restart);
    assert_eq!(
        advertising_step(true, false, Some(false)),
        AdvertisingOp::Keep
    );
    assert_eq!(
        advertising_step(false, false, Some(true)),
        AdvertisingOp::Stop
    );
    assert_eq!(advertising_step(true, true, None), AdvertisingOp::Keep);
    assert_eq!(
        advertising_step(true, true, Some(false)),
        AdvertisingOp::Start
    );
}

#[test]
fn sighting_capacity_saturates() {
    assert_eq!(central_peripheral_capacity(0), 0);
    assert_eq!(central_peripheral_capacity(7), 28);
    assert_eq!(central_peripheral_capacity(usize::MAX), usize::MAX);
}

#[test]
fn write_admission_serializes_acks_and_waits_for_unacknowledged_capacity() {
    assert_eq!(
        write_admission(GattWriteMode::WithResponse, false, false, false),
        GattWriteAdmission::Issue
    );
    assert_eq!(
        write_admission(GattWriteMode::WithResponse, true, false, false),
        GattWriteAdmission::Busy
    );
    assert_eq!(
        write_admission(GattWriteMode::WithoutResponse, false, false, false),
        GattWriteAdmission::WaitForCapacity
    );
    assert_eq!(
        write_admission(GattWriteMode::WithoutResponse, false, false, true),
        GattWriteAdmission::Issue
    );
    assert_eq!(
        write_admission(GattWriteMode::WithoutResponse, false, true, true),
        GattWriteAdmission::Busy
    );
}
