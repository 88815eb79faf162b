use bluetooth_auto::announce::{
    notify_accepted_announce, AnnounceObservation, HopCount, IdentityHash, InterfaceId, Journaled,
};
use bluetooth_auto::backend::{
    dial_task_step, ApplePlatform, BackendStep, BackendWake, BleEvent, DialOutcome, DialTaskEvent,
    DialTaskOutcome, DialTaskStep, MacosBleBackend, ManagerPreparation, Origin,
    PreparedMacosBleBackend, ReadinessEvent, TransitionOutcome,
};
use bluetooth_auto::error::MacosBleError;
use bluetooth_auto::host::{
    failure_message, l2cap_capability, platform_endpoint, AppleManagerPreparation, AttachedBle,
    platform_supervision, AutoBle, BackendRequest, Endpoint, HostPlatform, LinkCapabilities,
    PlatformFailure, PreparedAutoBle, PreparedSupervisor, ReadyAppleBackend, SupervisorEvent, SupervisorStep,
};
use bluetooth_auto::inspection::{
    answer_to, claim_result, inspection_id, DestinationHash, InspectedRoute, Inspection,
    InspectionError, InspectionQuery, InspectionRequest, InspectionResponse, InspectionTurn,
    InspectionValue, InstantMillis, NO_INSPECTION_ID,
};
use bluetooth_auto::peer::{BleAddress, BleIdentity, CoreBluetoothPeerId, Sighting};
use bluetooth_auto::registry_model::CentralDialCandidate;
use bluetooth_auto::restoration::CoreBluetoothRestorationIdentifiers;
use bluetooth_auto::session::DialCompletion;
use bluetooth_auto::signals::{ManagerSignal, ManagerSignals};

type Prepared = PreparedAutoBle<(), (), String, u8>;

fn address(value: u8) -> BleAddress {
    BleAddress::new([value; 6])
}

fn backend(platform: ApplePlatform) -> MacosBleBackend<u16> {
    MacosBleBackend::new(platform, 0x81, 1, 0)
}

#[test]
fn preparation_without_restoration_is_distinct_from_the_platform_default() {
    assert_ne!(
        ManagerPreparation::WithoutRestoration,
        ManagerPreparation::PlatformDefault
    );
}

#[test]
fn unavailable_central_only_preparation_retains_its_role_for_retry() {
    let identity = BleIdentity::new([0; 16]);
    let prepared: Prepared =
        AutoBle::unavailable_central_only_without_restoration(identity, (), ());
    assert_eq!(
        prepared.manager_preparation,
        AppleManagerPreparation::CentralOnlyWithoutRestoration
    );
}

#[test]
fn unavailable_central_only_preparation_retains_its_restoration_identifier() {
    let identity = BleIdentity::new([0; 16]);
    let identifier = String::from("central-only");
    let prepared: Prepared = AutoBle::unavailable_central_only_with_restoration(
        identity,
        (),
        (),
        identifier.clone(),
    );
    assert_eq!(
        prepared.manager_preparation,
        AppleManagerPreparation::CentralOnlyRestorationAware(identifier)
    );
}

#[test]
fn unavailable_preparation_retains_the_selected_retry_mode() {
    let identity = BleIdentity::new([0x30; 16]);
    let without_restoration: Prepared =
        AutoBle::unavailable_without_restoration(identity, (), ());
    assert_eq!(
        without_restoration.manager_preparation,
        AppleManagerPreparation::WithoutRestoration
    );
    assert!(without_restoration.backend.is_none());

    let restoration_aware: Prepared = AutoBle::unavailable(identity, (), ());
    assert_eq!(
        restoration_aware.manager_preparation,
        AppleManagerPreparation::LegacyRestorationAware
    );
    assert!(restoration_aware.backend.is_none());
}

#[test]
fn accepted_announce_observer_receives_the_complete_borrowed_observation() {
    let app_data = [0x42, 0x43, 0x44];
    let observation = AnnounceObservation {
        destination: DestinationHash([0x11; 16]),
        announced_identity: IdentityHash([0x22; 16]),
        hops: HopCount(3),
        source_interface: InterfaceId([0x33; 8]),
        arrived_at: InstantMillis(4_000),
        app_data: &app_data,
        is_path_response: false,
    };
    let capture = |observation: AnnounceObservation<'_>| {
        (
            observation.destination,
            observation.announced_identity,
            observation.hops,
            observation.source_interface,
            observation.arrived_at,
            observation.app_data.to_vec(),
            observation.is_path_response,
        )
    };

    assert_eq!(
        notify_accepted_announce(Some(capture), &Journaled::AnnounceHeard { observation }),
        Some((
            observation.destination,
            observation.announced_identity,
            observation.hops,
            observation.source_interface,
            observation.arrived_at,
            app_data.to_vec(),
            observation.is_path_response,
        ))
    );
    assert_eq!(
        notify_accepted_announce(Some(capture), &Journaled::Other),
        None
    );
}

#[test]
fn preparations_keep_what_they_were_given() {
    let identity = BleIdentity::new([1; 16]);
    let identifiers = CoreBluetoothRestorationIdentifiers::new("c", "p").unwrap();
    let prepared: Result<Prepared, MacosBleError> = AutoBle::prepare_with_restoration(
        identity,
        (),
        (),
        identifiers.clone(),
        Ok(9),
    );
    let prepared = prepared.expect("the managers were created");
    assert_eq!(prepared.backend, Some(9));
    assert_eq!(prepared.identity, identity);
    match prepared.manager_preparation.request(ApplePlatform::Ios) {
        BackendRequest::DualRole(ManagerPreparation::RestorationAware(kept)) => {
            assert_eq!(kept, identifiers);
        }
        _ => panic!("expected both roles"),
    }
    let failed: Result<Prepared, MacosBleError> =
        AutoBle::prepare(identity, (), (), Err(MacosBleError::Closed));
    assert!(matches!(failed, Err(MacosBleError::Closed)));
    let plain: Result<Prepared, MacosBleError> = AutoBle::prepare(identity, (), (), Ok(1));
    let plain = plain.expect("the managers were created");
    match plain.manager_preparation.request(ApplePlatform::Ios) {
        BackendRequest::DualRole(preparation) => {
            let identifiers = preparation.restoration_identifiers().expect("iOS restores");
            assert_eq!(identifiers.central(), "com.personal.prns.ble.central");
        }
        _ => panic!("expected both roles"),
    }
    assert!(matches!(
        plain.manager_preparation.request(ApplePlatform::Macos),
        BackendRequest::DualRole(ManagerPreparation::PlatformDefault)
    ));
    let central: Result<Prepared, MacosBleError> =
        AutoBle::prepare_central_only_with_restoration(identity, (), (), "id".into(), Ok(2));
    assert!(matches!(
        central.expect("created").manager_preparation.request(ApplePlatform::Ios),
        BackendRequest::CentralOnly(Some(id)) if id == "id"
    ));
    let central: Result<Prepared, MacosBleError> =
        AutoBle::prepare_central_only_without_restoration(identity, (), (), Ok(2));
    assert!(matches!(
        central.expect("created").manager_preparation.request(ApplePlatform::Ios),
        BackendRequest::CentralOnly(None)
    ));
    let without: Result<Prepared, MacosBleError> =
        AutoBle::prepare_without_restoration(identity, (), (), Ok(2));
    assert!(matches!(
        without.expect("created").manager_preparation.request(ApplePlatform::Ios),
        BackendRequest::DualRole(ManagerPreparation::WithoutRestoration)
    ));
    let retained: Prepared =
        AutoBle::unavailable_with_restoration(identity, (), (), identifiers.clone());
    assert_eq!(
        retained.manager_preparation,
        AppleManagerPreparation::RestorationAware(identifiers)
    );
    assert_eq!(AutoBle::new(identity).identity, identity);
    assert_eq!(AutoBle::with_policy(identity, 5_u8).policy, 5);
    let attached = AttachedBle {
        status: String::from("up"),
    };
    assert_eq!(attached.status(), "up");
    assert_eq!(attached.id(|status: &String| status.len()), 2);
}

#[test]
fn a_supervisor_retries_until_a_backend_is_ready() {
    let identity = BleIdentity::new([2; 16]);
    let interface: Result<PreparedAutoBle<u8, &'static str, String, u8>, MacosBleError> =
        AutoBle::prepare_without_restoration(identity, 6, "status", Ok(7));
    let (mut supervisor, status) = PreparedSupervisor::new(
        interface.expect("the managers were created"),
        ApplePlatform::Macos,
        500,
    );
    assert_eq!(status, "status");
    assert!(matches!(
        supervisor.next::<(), (), u16>(SupervisorEvent::Start),
        SupervisorStep::AwaitReady(7)
    ));
    assert!(matches!(
        supervisor.next::<(), (), u16>(SupervisorEvent::NotReady),
        SupervisorStep::Retry {
            message: "Bluetooth not granted or radio unavailable",
            delay_ms: 2_000,
        }
    ));
    assert!(matches!(
        supervisor.next::<(), (), u16>(SupervisorEvent::Start),
        SupervisorStep::Prepare {
            identity: prepared_for,
            request: BackendRequest::DualRole(ManagerPreparation::WithoutRestoration),
        } if prepared_for == identity
    ));
    assert!(matches!(
        supervisor.next::<(), (), u16>(SupervisorEvent::Prepared(None)),
        SupervisorStep::Retry {
            message: "Bluetooth native manager unavailable",
            delay_ms: 2_000,
        }
    ));
    assert!(matches!(
        supervisor.next::<(), (), u16>(SupervisorEvent::Prepared(Some(8))),
        SupervisorStep::AwaitReady(8)
    ));
    match supervisor.next::<u8, u8, u16>(SupervisorEvent::DualRoleReady {
        backend: 9,
        psm: 0x81,
    }) {
        SupervisorStep::Supervise(supervision) => {
            assert!(matches!(supervision.backend, ReadyAppleBackend::DualRole(9)));
            assert_eq!(supervision.identity, identity);
            assert_eq!(
                supervision.endpoint,
                Endpoint::CoreBluetooth(ApplePlatform::Macos)
            );
            assert_eq!(supervision.capabilities.l2cap, Some(0x81));
            assert_eq!(supervision.capabilities.link_mtu, 500);
            assert_eq!(supervision.policy, 6);
        }
        _ => panic!("expected a supervised backend"),
    }
    match supervisor.next::<u8, u8, u16>(SupervisorEvent::CentralOnlyReady { backend: 3 }) {
        SupervisorStep::Supervise(supervision) => {
            assert!(matches!(supervision.backend, ReadyAppleBackend::CentralOnly(3)));
            assert_eq!(supervision.capabilities.l2cap, None);
            assert_eq!(supervision.capabilities.link_mtu, 500);
        }
        _ => panic!("expected a supervised backend"),
    }
}

#[test]
fn an_opened_backend_is_supervised_or_the_failure_shown() {
    let identity = BleIdentity::new([3; 16]);
    let opened: Result<(&'static str, u16), PlatformFailure> = Ok(("bluez", 0x83));
    let supervision = platform_supervision(
        AutoBle::with_policy(identity, 4_u8),
        HostPlatform::Linux,
        500,
        opened,
    );
    match supervision {
        Ok(supervision) => {
            assert_eq!(supervision.backend, "bluez");
            assert_eq!(supervision.identity, identity);
            assert_eq!(supervision.endpoint, Endpoint::BlueZ);
            assert_eq!(
                supervision.capabilities,
                LinkCapabilities {
                    l2cap: Some(0x83),
                    link_mtu: 500,
                }
            );
            assert_eq!(supervision.policy, 4);
        }
        Err(_) => panic!("expected a supervised backend"),
    }
    let refused: Result<((), u16), PlatformFailure> = Err(PlatformFailure::InvalidControlPsm);
    assert!(matches!(
        platform_supervision(
            AutoBle::with_policy(identity, ()),
            HostPlatform::Linux,
            500,
            refused
        ),
        Err("invalid Linux control PSM")
    ));
    let unsupported: Result<((), u16), PlatformFailure> = Ok(((), 1));
    assert!(matches!(
        platform_supervision(
            AutoBle::with_policy(identity, ()),
            HostPlatform::Other,
            500,
            unsupported
        ),
        Err("no native BLE backend for this platform")
    ));
}

#[test]
fn platforms_offer_what_they_can() {
    let macos = HostPlatform::Apple(ApplePlatform::Macos);
    let ios = HostPlatform::Apple(ApplePlatform::Ios);
    assert_eq!(
        platform_endpoint(macos),
        Some(Endpoint::CoreBluetooth(ApplePlatform::Macos))
    );
    assert_eq!(platform_endpoint(HostPlatform::Windows), Some(Endpoint::WinRt));
    assert_eq!(platform_endpoint(HostPlatform::Linux), Some(Endpoint::BlueZ));
    assert_eq!(platform_endpoint(HostPlatform::Other), None);
    assert_eq!(l2cap_capability(macos, false, 1_u16), Some(1));
    assert_eq!(l2cap_capability(macos, true, 1_u16), None);
    assert_eq!(l2cap_capability(ios, false, 1_u16), None);
    assert_eq!(l2cap_capability(HostPlatform::Linux, false, 0x83_u16), Some(0x83));
    assert_eq!(l2cap_capability(HostPlatform::Windows, false, 1_u16), None);
    assert_eq!(
        failure_message(ios, PlatformFailure::BackendUnavailable),
        "Bluetooth not granted or radio unavailable"
    );
    assert_eq!(
        failure_message(HostPlatform::Windows, PlatformFailure::BackendUnavailable),
        "Bluetooth off or unsupported"
    );
    assert_eq!(
        failure_message(HostPlatform::Linux, PlatformFailure::BackendUnavailable),
        "bluetoothd or adapter unavailable"
    );
    assert_eq!(
        failure_message(HostPlatform::Other, PlatformFailure::BackendUnavailable),
        "no native BLE backend for this platform"
    );
    assert_eq!(
        failure_message(HostPlatform::Linux, PlatformFailure::InvalidControlPsm),
        "invalid Linux control PSM"
    );
    assert_eq!(
        failure_message(macos, PlatformFailure::ManagerUnavailable),
        "Bluetooth native manager unavailable"
    );
}

#[test]
fn a_prepared_backend_becomes_ready_or_says_why_not() {
    let prepared = PreparedMacosBleBackend {
        platform: ApplePlatform::Ios,
    };
    let mut signals = ManagerSignals::new();
    assert!(matches!(
        prepared.ready(ReadinessEvent::Signals(signals), Some, 0),
        Ok(None)
    ));
    signals.apply(ManagerSignal::CentralPowered);
    signals.apply(ManagerSignal::GattServicePublished);
    signals.apply(ManagerSignal::L2capPublished(0x90));
    let ready = prepared
        .ready(ReadinessEvent::Signals(signals), Some, 5)
        .expect("nothing failed")
        .expect("everything is published");
    assert_eq!(*ready.psm(), 0x90);
    assert_eq!(ready.scan_liveness_at(), 60_005);
    assert_eq!(ready.advertising_reconcile_at(), 60_005);
    assert!(matches!(
        prepared.ready(ReadinessEvent::TimedOut, Some, 0),
        Err(MacosBleError::PowerOnTimeout)
    ));
    assert!(matches!(
        prepared.ready(ReadinessEvent::Closed, Some, 0),
        Err(MacosBleError::Closed)
    ));
    signals.apply(ManagerSignal::L2capPublishFailed);
    assert!(matches!(
        prepared.ready(ReadinessEvent::Signals(signals), Some, 0),
        Err(MacosBleError::PublishFailed)
    ));
    assert_eq!(ApplePlatform::Macos.max_peers(), 8);
    assert_eq!(ApplePlatform::Ios.max_peers(), 7);
}

#[test]
fn dials_that_find_nothing_fail_with_the_next_event() {
    let mut backend = backend(ApplePlatform::Macos);
    assert!(matches!(
        backend.dial::<u8>(false, address(1), CentralDialCandidate::Missing),
        (DialOutcome::RadioOff, None)
    ));
    assert!(backend.poll::<()>(None).is_none());
    assert!(matches!(
        backend.dial::<u8>(true, address(1), CentralDialCandidate::Missing),
        (DialOutcome::Started, None)
    ));
    assert!(matches!(
        backend.dial::<u8>(true, address(2), CentralDialCandidate::Busy),
        (DialOutcome::Started, None)
    ));
    let (outcome, target) = backend.dial(
        true,
        address(3),
        CentralDialCandidate::Ready {
            peer_id: CoreBluetoothPeerId([3; 16]),
            peripheral: 30_u8,
            rssi: Some(-1),
            restored: true,
        },
    );
    assert_eq!(outcome, DialOutcome::Started);
    let target = target.expect("the dial goes ahead");
    assert_eq!(target.peripheral, 30);
    assert!(target.restored);
    assert!(matches!(
        backend.poll::<()>(Some(CoreBluetoothPeerId([9; 16]))),
        Some(BleEvent::Sighting { address: seen, rssi: None }) if seen == address(9)
    ));
    assert!(matches!(
        backend.poll::<()>(None),
        Some(BleEvent::DialFailed { address: failed }) if failed == address(1)
    ));
    assert!(matches!(
        backend.poll::<()>(None),
        Some(BleEvent::DialFailed { address: failed }) if failed == address(2)
    ));
    assert!(backend.poll::<()>(None).is_none());
}

#[test]
fn each_address_is_sighted_once_until_it_is_forgotten() {
    let mut backend = backend(ApplePlatform::Ios);
    assert_eq!(backend.next_sighting(address(1)), Some(address(1)));
    assert_eq!(backend.next_sighting(address(1)), None);
    for value in 2..29 {
        assert_eq!(backend.next_sighting(address(value)), Some(address(value)));
    }
    assert_eq!(backend.next_sighting(address(1)), None);
    for value in 30..58 {
        assert_eq!(backend.next_sighting(address(value)), Some(address(value)));
    }
    assert_eq!(backend.next_sighting(address(1)), Some(address(1)));
}

#[test]
fn wakes_lead_to_their_events() {
    let mut backend = backend(ApplePlatform::Macos);
    assert!(!backend.armed(false).scan_liveness);
    assert!(backend.set_scanning(true, 0));
    backend.set_advertising(true, 0);
    let armed = backend.armed(true);
    assert!(armed.manager_signals && armed.dials);
    assert!(armed.scan_liveness && armed.advertising_reconcile);
    assert!(matches!(
        backend.on_wake::<u8>(BackendWake::ManagerSignals(Some(1)), 1),
        BackendStep::Continue
    ));
    assert!(matches!(
        backend.on_wake::<u8>(BackendWake::ManagerSignals(Some(2)), 1),
        BackendStep::RestartScan
    ));
    assert!(matches!(
        backend.on_wake::<u8>(BackendWake::ScanLiveness { activity: true }, 10),
        BackendStep::Continue
    ));
    assert_eq!(backend.scan_liveness_at(), 60_010);
    assert!(matches!(
        backend.on_wake::<u8>(BackendWake::ScanLiveness { activity: false }, 20),
        BackendStep::RestartScan
    ));
    assert!(matches!(
        backend.on_wake::<u8>(BackendWake::AdvertisingReconcile, 30),
        BackendStep::ReconcileAdvertising
    ));
    assert_eq!(backend.advertising_reconcile_at(), 60_030);
    assert!(matches!(
        backend.on_wake(BackendWake::Inbound(Some(4_u8)), 0),
        BackendStep::Return(BleEvent::Inbound(4))
    ));
    assert!(matches!(
        backend.on_wake::<u8>(BackendWake::Inbound(None), 0),
        BackendStep::Pending
    ));
    assert!(matches!(
        backend.on_wake(
            BackendWake::Dial(Some(DialTaskOutcome::Ready {
                link: 5_u8,
                peer_rssi: Some(-3),
            })),
            0
        ),
        BackendStep::Return(BleEvent::LinkReady {
            link: 5,
            origin: Origin::Dialed,
            peer_rssi: Some(-3),
        })
    ));
    assert!(matches!(
        backend.on_wake::<u8>(
            BackendWake::Dial(Some(DialTaskOutcome::Failed { address: address(6) })),
            0
        ),
        BackendStep::Return(BleEvent::DialFailed { address: failed }) if failed == address(6)
    ));
    assert!(matches!(
        backend.on_wake::<u8>(BackendWake::Dial(None), 0),
        BackendStep::Continue
    ));
    assert!(matches!(
        backend.on_wake::<u8>(
            BackendWake::Sighted(Some(Sighting {
                address: address(7),
                rssi: Some(-9),
            })),
            0
        ),
        BackendStep::Return(BleEvent::Sighting { address: seen, rssi: Some(-9) })
            if seen == address(7)
    ));
    assert!(matches!(
        backend.on_wake::<u8>(BackendWake::Sighted(None), 0),
        BackendStep::Continue
    ));
    assert!(matches!(
        backend.on_wake::<u8>(BackendWake::SightingsClosed, 0),
        BackendStep::Pending
    ));
    assert!(matches!(
        backend.on_wake::<u8>(BackendWake::ManagerSignals(None), 0),
        BackendStep::Continue
    ));
    assert!(!backend.armed(false).manager_signals);
}

#[test]
fn switching_the_radio_off_forgets_what_came_before() {
    let mut backend = backend(ApplePlatform::Macos);
    assert!(backend.set_scanning(true, 0));
    assert_eq!(backend.next_sighting(address(1)), Some(address(1)));
    let _ = backend.dial::<u8>(true, address(2), CentralDialCandidate::Missing);
    backend.begin_radio_transition(false, 100);
    assert!(!backend.armed(false).scan_liveness);
    assert!(backend.poll::<()>(None).is_none());
    assert_eq!(backend.next_sighting(address(1)), Some(address(1)));
    assert_eq!(
        backend.finish_radio_transition(false, TransitionOutcome::Completed, 200),
        Ok(())
    );
    assert_eq!(backend.scan_liveness_at(), 60_200);
    assert_eq!(backend.next_sighting(address(1)), Some(address(1)));
    assert_eq!(
        backend.finish_radio_transition(true, TransitionOutcome::Closed, 0),
        Err(MacosBleError::Closed)
    );
    assert_eq!(
        backend.finish_radio_transition(true, TransitionOutcome::TimedOut, 0),
        Err(MacosBleError::RadioTransitionTimeout)
    );
    assert!(matches!(
        backend.on_wake::<u8>(BackendWake::ManagerSignals(Some(9)), 1),
        BackendStep::Continue
    ));
    let mut ios = MacosBleBackend::new(ApplePlatform::Ios, 1_u16, 0, u64::MAX);
    assert!(!ios.set_scanning(true, u64::MAX));
    assert_eq!(ios.scan_liveness_at(), u64::MAX);
    assert!(!ios.armed(false).scan_liveness);
}

#[test]
fn a_dial_task_cleans_up_only_after_a_silent_session() {
    assert!(matches!(
        dial_task_step::<u8>(DialTaskEvent::TimedOut),
        DialTaskStep::Fail { clean_up: true }
    ));
    assert!(matches!(
        dial_task_step::<u8>(DialTaskEvent::Closed),
        DialTaskStep::Fail { clean_up: true }
    ));
    assert!(matches!(
        dial_task_step::<u8>(DialTaskEvent::Completed(DialCompletion::Failed)),
        DialTaskStep::Fail { clean_up: false }
    ));
}

#[test]
fn one_inspection_goes_through_at_a_time() {
    let turn = InspectionTurn::new();
    let mut first = match Inspection::begin(&turn, InspectionQuery::RouteCount) {
        Ok(inspection) => inspection,
        Err(_) => panic!("nobody else inspects"),
    };
    assert!(matches!(
        Inspection::begin(&turn, InspectionQuery::LinkCount),
        Err(InspectionError::Busy)
    ));
    let count = |id: u64| InspectionResponse::<u8> {
        id,
        value: InspectionValue::Count(4),
    };
    assert_eq!(first.answer(count(0)), None);
    assert_eq!(
        first.request(),
        Some(InspectionRequest {
            id: 0,
            query: InspectionQuery::RouteCount,
        })
    );
    assert_eq!(first.answer(count(7)), None);
    assert_eq!(first.answer(count(0)), Some(InspectionValue::Count(4)));
    first.finish();
    let mut second = match Inspection::begin(&turn, InspectionQuery::LinkCount) {
        Ok(inspection) => inspection,
        Err(_) => panic!("the first inspection is over"),
    };
    assert_eq!(
        second.request(),
        Some(InspectionRequest {
            id: 1,
            query: InspectionQuery::LinkCount,
        })
    );
    assert_eq!(second.answer(count(0)), None);
    second.finish();
    assert_eq!(claim_result(Ok(false)), Ok(()));
    assert_eq!(claim_result(Err(true)), Err(InspectionError::Busy));
    assert_eq!(inspection_id(NO_INSPECTION_ID), None);
    assert_eq!(inspection_id(NO_INSPECTION_ID - 1), Some(u64::MAX - 1));
    let response = InspectionResponse {
        id: 1,
        value: InspectionValue::Route(Some(InspectedRoute {
            observed_at: InstantMillis(5),
            route: "route",
        })),
    };
    assert_eq!(answer_to(response.clone(), 0), None);
    assert_eq!(answer_to(response.clone(), 1), Some(response.value));
    assert_eq!(
        answer_to::<u8>(
            InspectionResponse {
                id: 3,
                value: InspectionValue::Count(9),
            },
            3
        ),
        Some(InspectionValue::Count(9))
    );
}
