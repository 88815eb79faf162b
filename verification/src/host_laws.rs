//! What holds of a host's interface: which managers its supervisor asks for, and what its links
//! offer.

use crate::backend::{ApplePlatform, ManagerPreparation};
use crate::host;
use crate::host::{
    AppleManagerPreparation, AutoBle, BackendRequest, ConfiguredAutoBle, Endpoint, HostPlatform,
    PlatformFailure, PreparedAutoBle, PreparedSupervisor, ReadyAppleBackend, Supervision,
    SupervisorEvent, SupervisorStep,
};
use crate::peer::BleIdentity;
use crate::restoration::CoreBluetoothRestorationIdentifiers;
use vstd::prelude::*;

verus! {

/// L2CAP is offered on macOS and Linux alone, and never by a backend of the central role alone.
pub proof fn law_l2cap_capability<S>(
    platform: HostPlatform,
    central_only: bool,
    psm: S,
    offered: Option<S>,
)
    requires
        call_ensures(host::l2cap_capability::<S>, (platform, central_only, psm), offered),
    ensures
        offered is Some <==> !central_only && (platform == HostPlatform::Linux || platform
            == HostPlatform::Apple(ApplePlatform::Macos)),
        offered matches Some(offered) ==> offered == psm,
{
}

/// Every platform but the unknown one has its own endpoint.
pub proof fn law_endpoint(platform: HostPlatform, endpoint: Option<Endpoint>)
    requires
        call_ensures(host::platform_endpoint, (platform,), endpoint),
    ensures
        endpoint is None <==> platform == HostPlatform::Other,
        endpoint == Some(Endpoint::WinRt) <==> platform == HostPlatform::Windows,
        endpoint == Some(Endpoint::BlueZ) <==> platform == HostPlatform::Linux,
        platform matches HostPlatform::Apple(apple) ==> endpoint == Some(
            Endpoint::CoreBluetooth(apple),
        ),
{
}

/// An interface is supervised exactly where its platform has a backend and that backend was opened,
/// and then under its own identity and policy, and with the MTU of its links.
pub proof fn law_platform_supervision<B, S, Y>(
    interface: ConfiguredAutoBle<Y>,
    platform: HostPlatform,
    link_mtu: u16,
    opened: Result<(B, S), PlatformFailure>,
    supervised: Result<Supervision<B, S, Y>, &'static str>,
)
    requires
        call_ensures(
            host::platform_supervision::<B, S, Y>,
            (interface, platform, link_mtu, opened),
            supervised,
        ),
    ensures
        supervised is Ok <==> opened is Ok && platform != HostPlatform::Other,
        supervised matches Err(message) ==> {
            &&& platform is Other ==> message@ == "no native BLE backend for this platform"@
            &&& !(platform is Other) && opened == Err::<(B, S), PlatformFailure>(
                PlatformFailure::ManagerUnavailable,
            ) ==> message@ == "Bluetooth native manager unavailable"@
            &&& !(platform is Other) && opened == Err::<(B, S), PlatformFailure>(
                PlatformFailure::InvalidControlPsm,
            ) ==> message@ == "invalid Linux control PSM"@
            &&& platform is Linux && opened == Err::<(B, S), PlatformFailure>(
                PlatformFailure::BackendUnavailable,
            ) ==> message@ == "bluetoothd or adapter unavailable"@
            &&& platform is Windows && opened == Err::<(B, S), PlatformFailure>(
                PlatformFailure::BackendUnavailable,
            ) ==> message@ == "Bluetooth off or unsupported"@
            &&& platform is Apple && opened == Err::<(B, S), PlatformFailure>(
                PlatformFailure::BackendUnavailable,
            ) ==> message@ == "Bluetooth not granted or radio unavailable"@
        },
        supervised matches Ok(supervision) ==> {
            &&& supervision.identity == interface.identity
            &&& supervision.policy == interface.policy
            &&& supervision.capabilities.link_mtu == link_mtu
            &&& opened matches Ok((backend, psm))
            &&& supervision.backend == backend
            &&& supervision.capabilities.l2cap is Some <==> platform == HostPlatform::Linux
                || platform == HostPlatform::Apple(ApplePlatform::Macos)
            &&& supervision.capabilities.l2cap matches Some(offered) ==> offered == psm
            &&& platform matches HostPlatform::Apple(apple) ==> supervision.endpoint
                == Endpoint::CoreBluetooth(apple)
            &&& platform == HostPlatform::Windows ==> supervision.endpoint == Endpoint::WinRt
            &&& platform == HostPlatform::Linux ==> supervision.endpoint == Endpoint::BlueZ
        },
{
}

/// A preparation asks for the role and the restoration that it was made with: both roles or the
/// central one alone, under its own identifiers, or under none.
pub proof fn law_backend_request<I: Clone>(
    preparation: AppleManagerPreparation<I>,
    platform: ApplePlatform,
    request: BackendRequest<I>,
)
    requires
        call_ensures(AppleManagerPreparation::<I>::request, (&preparation, platform), request),
    ensures
        request is CentralOnly <==> preparation is CentralOnlyRestorationAware
            || preparation is CentralOnlyWithoutRestoration,
        preparation matches AppleManagerPreparation::CentralOnlyRestorationAware(identifier) ==> (
        request matches BackendRequest::CentralOnly(Some(asked)) && cloned(identifier, asked)),
        preparation is CentralOnlyWithoutRestoration ==> (request
            matches BackendRequest::CentralOnly(None)),
        preparation is WithoutRestoration ==> (request matches BackendRequest::DualRole(asked)
            && asked is WithoutRestoration),
        preparation matches AppleManagerPreparation::RestorationAware(identifiers) ==> (
        request matches BackendRequest::DualRole(ManagerPreparation::RestorationAware(asked))
            && asked == identifiers),
        preparation is LegacyRestorationAware ==> (request matches BackendRequest::DualRole(asked)
            && (asked is RestorationAware <==> platform is Ios) && (asked is PlatformDefault
            <==> platform is Macos)),
{
}

/// A supervisor keeps its identity, its policy and its preparation whatever happens. It uses the
/// managers that were created ahead once, and asks for new ones where there are none; it waits for
/// managers that were created, shows what failed and starts again two seconds after every failure,
/// and supervises the backend that became ready and no other.
pub proof fn law_supervisor<Y: Copy, I: Clone, B, M, N, S>(
    supervisor: &mut PreparedSupervisor<Y, I, B>,
    event: SupervisorEvent<B, M, N, S>,
    step: SupervisorStep<B, M, N, S, Y, I>,
)
    requires
        call_ensures(
            PreparedSupervisor::<Y, I, B>::next::<M, N, S>,
            (supervisor, event),
            step,
        ),
    ensures
        final(supervisor).identity == old(supervisor).identity,
        final(supervisor).policy == old(supervisor).policy,
        final(supervisor).platform == old(supervisor).platform,
        final(supervisor).link_mtu == old(supervisor).link_mtu,
        final(supervisor).manager_preparation == old(supervisor).manager_preparation,
        event is Start ==> final(supervisor).prepared is None,
        !(event is Start) ==> final(supervisor).prepared == old(supervisor).prepared,
        step is Prepare <==> event is Start && old(supervisor).prepared is None,
        step matches SupervisorStep::Prepare { identity, request } ==> identity == old(
            supervisor).identity && (request is CentralOnly <==> old(
            supervisor).manager_preparation is CentralOnlyRestorationAware || old(
            supervisor).manager_preparation is CentralOnlyWithoutRestoration),
        step is AwaitReady <==> (event is Start && old(supervisor).prepared is Some) || (
        event matches SupervisorEvent::Prepared(Some(_))),
        event is Start && step is AwaitReady ==> (step matches SupervisorStep::AwaitReady(backend)
            && Some(backend) == old(supervisor).prepared),
        event matches SupervisorEvent::Prepared(Some(made)) ==> (
        step matches SupervisorStep::AwaitReady(backend) && backend == made),
        step is Retry <==> event is NotReady || (event matches SupervisorEvent::Prepared(None)),
        step matches SupervisorStep::Retry { delay_ms, message } ==> delay_ms == 2_000 && message@
            == if event is NotReady {
            "Bluetooth not granted or radio unavailable"@
        } else {
            "Bluetooth native manager unavailable"@
        },
        step is Supervise <==> event is DualRoleReady || event is CentralOnlyReady,
        step matches SupervisorStep::Supervise(supervision) ==> {
            &&& supervision.identity == old(supervisor).identity
            &&& supervision.policy == old(supervisor).policy
            &&& supervision.capabilities.link_mtu == old(supervisor).link_mtu
            &&& supervision.endpoint == Endpoint::CoreBluetooth(old(supervisor).platform)
            &&& supervision.capabilities.l2cap is Some <==> event is DualRoleReady && old(
                supervisor).platform is Macos
            &&& event matches SupervisorEvent::DualRoleReady { backend, psm } ==> {
                &&& supervision.backend matches ReadyAppleBackend::DualRole(given)
                &&& given == backend
                &&& supervision.capabilities.l2cap matches Some(offered) ==> offered == psm
            }
            &&& event matches SupervisorEvent::CentralOnlyReady { backend } ==> {
                &&& supervision.backend matches ReadyAppleBackend::CentralOnly(given)
                &&& given == backend
            }
        },
{
}

/// The supervisor of an interface starts with what the interface was prepared with, and shows what
/// it does in that interface's status.
pub proof fn law_supervisor_of_an_interface<Y, U, I, B>(
    interface: PreparedAutoBle<Y, U, I, B>,
    platform: ApplePlatform,
    link_mtu: u16,
    made: (PreparedSupervisor<Y, I, B>, U),
)
    requires
        call_ensures(
            PreparedSupervisor::<Y, I, B>::new::<U>,
            (interface, platform, link_mtu),
            made,
        ),
    ensures
        made.0.identity == interface.identity,
        made.0.policy == interface.policy,
        made.0.prepared == interface.backend,
        made.0.manager_preparation == interface.manager_preparation,
        made.0.platform == platform,
        made.0.link_mtu == link_mtu,
        made.1 == interface.status,
{
}

/// The interface keeps the identity, the policy and the status that it was made with.
pub open spec fn is_interface_of<Y, U, I, B>(
    interface: PreparedAutoBle<Y, U, I, B>,
    identity: BleIdentity,
    policy: Y,
    status: U,
) -> bool {
    &&& interface.identity == identity
    &&& interface.policy == policy
    &&& interface.status == status
}

/// An interface of both roles is prepared with the managers where they could be created, and with
/// nothing where they could not; either way its retries ask for what it was prepared with, and it
/// keeps what it was made with.
pub proof fn law_prepared_interfaces<Y, U, I, B, E>(
    identity: BleIdentity,
    policy: Y,
    status: U,
    identifiers: CoreBluetoothRestorationIdentifiers,
    backend: Result<B, E>,
    plain: Result<PreparedAutoBle<Y, U, I, B>, E>,
    restored: Result<PreparedAutoBle<Y, U, I, B>, E>,
    unrestored: Result<PreparedAutoBle<Y, U, I, B>, E>,
    no_plain: PreparedAutoBle<Y, U, I, B>,
    no_restored: PreparedAutoBle<Y, U, I, B>,
    no_unrestored: PreparedAutoBle<Y, U, I, B>,
)
    requires
        call_ensures(
            AutoBle::prepare::<Y, U, I, B, E>,
            (identity, policy, status, backend),
            plain,
        ),
        call_ensures(
            AutoBle::prepare_with_restoration::<Y, U, I, B, E>,
            (identity, policy, status, identifiers, backend),
            restored,
        ),
        call_ensures(
            AutoBle::prepare_without_restoration::<Y, U, I, B, E>,
            (identity, policy, status, backend),
            unrestored,
        ),
        call_ensures(
            AutoBle::unavailable::<Y, U, I, B>,
            (identity, policy, status),
            no_plain,
        ),
        call_ensures(
            AutoBle::unavailable_with_restoration::<Y, U, I, B>,
            (identity, policy, status, identifiers),
            no_restored,
        ),
        call_ensures(
            AutoBle::unavailable_without_restoration::<Y, U, I, B>,
            (identity, policy, status),
            no_unrestored,
        ),
    ensures
        is_interface_of(no_plain, identity, policy, status) && no_plain.backend is None,
        is_interface_of(no_restored, identity, policy, status) && no_restored.backend is None,
        is_interface_of(no_unrestored, identity, policy, status) && no_unrestored.backend is None,
        no_plain.manager_preparation is LegacyRestorationAware,
        no_restored.manager_preparation matches AppleManagerPreparation::RestorationAware(kept)
            && kept == identifiers,
        no_unrestored.manager_preparation is WithoutRestoration,
        plain is Ok <==> backend is Ok,
        restored is Ok <==> backend is Ok,
        unrestored is Ok <==> backend is Ok,
        backend matches Ok(backend) ==> {
            &&& plain matches Ok(plain)
            &&& restored matches Ok(restored)
            &&& unrestored matches Ok(unrestored)
            &&& plain.backend == Some(backend) && restored.backend == Some(backend)
            &&& unrestored.backend == Some(backend)
            &&& is_interface_of(plain, identity, policy, status)
            &&& is_interface_of(restored, identity, policy, status)
            &&& is_interface_of(unrestored, identity, policy, status)
            &&& plain.manager_preparation == no_plain.manager_preparation
            &&& restored.manager_preparation == no_restored.manager_preparation
            &&& unrestored.manager_preparation == no_unrestored.manager_preparation
        },
        backend matches Err(error) ==> {
            &&& plain matches Err(shown)
            &&& shown == error
        },
{
}

/// The same of an interface of the central role alone.
pub proof fn law_prepared_central_interfaces<Y, U, I, B, E>(
    identity: BleIdentity,
    policy: Y,
    status: U,
    identifier: I,
    backend: Result<B, E>,
    restored: Result<PreparedAutoBle<Y, U, I, B>, E>,
    unrestored: Result<PreparedAutoBle<Y, U, I, B>, E>,
    no_restored: PreparedAutoBle<Y, U, I, B>,
    no_unrestored: PreparedAutoBle<Y, U, I, B>,
)
    requires
        call_ensures(
            AutoBle::prepare_central_only_with_restoration::<Y, U, I, B, E>,
            (identity, policy, status, identifier, backend),
            restored,
        ),
        call_ensures(
            AutoBle::prepare_central_only_without_restoration::<Y, U, I, B, E>,
            (identity, policy, status, backend),
            unrestored,
        ),
        call_ensures(
            AutoBle::unavailable_central_only_with_restoration::<Y, U, I, B>,
            (identity, policy, status, identifier),
            no_restored,
        ),
        call_ensures(
            AutoBle::unavailable_central_only_without_restoration::<Y, U, I, B>,
            (identity, policy, status),
            no_unrestored,
        ),
    ensures
        is_interface_of(no_restored, identity, policy, status) && no_restored.backend is None,
        is_interface_of(no_unrestored, identity, policy, status) && no_unrestored.backend is None,
        no_restored.manager_preparation matches AppleManagerPreparation::CentralOnlyRestorationAware(
            kept,
        ) && kept == identifier,
        no_unrestored.manager_preparation is CentralOnlyWithoutRestoration,
        restored is Ok <==> backend is Ok,
        unrestored is Ok <==> backend is Ok,
        backend matches Ok(backend) ==> {
            &&& restored matches Ok(restored)
            &&& unrestored matches Ok(unrestored)
            &&& restored.backend == Some(backend) && unrestored.backend == Some(backend)
            &&& is_interface_of(restored, identity, policy, status)
            &&& is_interface_of(unrestored, identity, policy, status)
            &&& restored.manager_preparation == no_restored.manager_preparation
            &&& unrestored.manager_preparation == no_unrestored.manager_preparation
        },
{
}

/// A host's status names what stands between it and its Bluetooth: what failed, and where the
/// backend itself did, what that means on the platform.
pub proof fn law_failure_message(
    platform: HostPlatform,
    failure: PlatformFailure,
    message: &'static str,
)
    requires
        call_ensures(host::failure_message, (platform, failure), message),
    ensures
        failure is ManagerUnavailable ==> message@ == "Bluetooth native manager unavailable"@,
        failure is InvalidControlPsm ==> message@ == "invalid Linux control PSM"@,
        failure is BackendUnavailable ==> {
            &&& platform is Apple ==> message@ == "Bluetooth not granted or radio unavailable"@
            &&& platform is Windows ==> message@ == "Bluetooth off or unsupported"@
            &&& platform is Linux ==> message@ == "bluetoothd or adapter unavailable"@
            &&& platform is Other ==> message@ == "no native BLE backend for this platform"@
        },
{
}

} // verus!
