//! What a host attaches, how it is prepared, and what a supervisor makes of failures.

use crate::backend::{ApplePlatform, ManagerPreparation};
use crate::peer::BleIdentity;
use crate::restoration;
use crate::restoration::CoreBluetoothRestorationIdentifiers;
use vstd::prelude::*;

verus! {

/// How long a supervisor waits before it prepares the managers again, in milliseconds.
pub const APPLE_BLE_READINESS_RETRY_DELAY_MS: u64 = 2_000;

/// The PSM of the control channel on Linux.
pub const CONTROL_PSM: u16 = 0x0083;

/// The Bluetooth LE auto-interface of a host.
#[derive(Clone, Copy, Debug, PartialEq, Eq)]
pub struct AutoBle {
    pub identity: BleIdentity,
}

/// The Bluetooth LE auto-interface of a host, with a policy.
pub struct ConfiguredAutoBle<Y> {
    pub identity: BleIdentity,
    pub policy: Y,
}

/// Which Apple managers are created, and how. `I` identifies a lone central manager.
#[derive(Debug, PartialEq, Eq)]
pub enum AppleManagerPreparation<I> {
    /// Both managers, as the platform restores them where the application names no identifiers.
    LegacyRestorationAware,
    /// Both managers, restored under these identifiers.
    RestorationAware(CoreBluetoothRestorationIdentifiers),
    /// Only the central manager, restored under this identifier.
    CentralOnlyRestorationAware(I),
    /// Both managers, without restoration.
    WithoutRestoration,
    /// Only the central manager, without restoration.
    CentralOnlyWithoutRestoration,
}

/// The backend that a preparation asks for.
pub enum BackendRequest<I> {
    /// Both roles.
    DualRole(ManagerPreparation),
    /// The central role alone, restored under the identifier where there is one.
    CentralOnly(Option<I>),
}

impl<I> AppleManagerPreparation<I> {
    /// Only the central role is prepared.
    pub open spec fn is_central_only(self) -> bool {
        self is CentralOnlyRestorationAware || self is CentralOnlyWithoutRestoration
    }

    /// The preparation asks for the backend of the request.
    pub open spec fn requests(self, platform: ApplePlatform, request: BackendRequest<I>) -> bool where
        I: Clone,
     {
        match self {
            AppleManagerPreparation::LegacyRestorationAware => request
                matches BackendRequest::DualRole(preparation) && match platform {
                ApplePlatform::Ios => preparation matches ManagerPreparation::RestorationAware(
                    identifiers,
                ) && identifiers@ == restoration::unnamed_model(),
                ApplePlatform::Macos => preparation is PlatformDefault,
            },
            AppleManagerPreparation::RestorationAware(identifiers) => request
                == BackendRequest::<I>::DualRole(ManagerPreparation::RestorationAware(identifiers)),
            AppleManagerPreparation::WithoutRestoration => request
                == BackendRequest::<I>::DualRole(ManagerPreparation::WithoutRestoration),
            AppleManagerPreparation::CentralOnlyRestorationAware(identifier) => request
                matches BackendRequest::CentralOnly(Some(asked)) && cloned(identifier, asked),
            AppleManagerPreparation::CentralOnlyWithoutRestoration => request
                == BackendRequest::<I>::CentralOnly(None),
        }
    }

    /// The backend that the preparation asks for. Every retry asks for the same.
    pub fn request(&self, platform: ApplePlatform) -> (r: BackendRequest<I>) where I: Clone
        ensures
            r is CentralOnly <==> self.is_central_only(),
            self.requests(platform, r),
    {
        match self {
            AppleManagerPreparation::LegacyRestorationAware => BackendRequest::DualRole(
                ManagerPreparation::platform_default(platform),
            ),
            AppleManagerPreparation::RestorationAware(identifiers) => BackendRequest::DualRole(
                ManagerPreparation::RestorationAware(identifiers.clone()),
            ),
            AppleManagerPreparation::WithoutRestoration => BackendRequest::DualRole(
                ManagerPreparation::WithoutRestoration,
            ),
            AppleManagerPreparation::CentralOnlyRestorationAware(identifier) => {
                BackendRequest::CentralOnly(Some(identifier.clone()))
            },
            AppleManagerPreparation::CentralOnlyWithoutRestoration => BackendRequest::CentralOnly(
                None,
            ),
        }
    }
}

/// An auto-interface whose managers were prepared, or could not be. `Y` is a policy, `U` a status,
/// `B` a prepared backend.
pub struct PreparedAutoBle<Y, U, I, B> {
    pub identity: BleIdentity,
    pub policy: Y,
    pub status: U,
    pub manager_preparation: AppleManagerPreparation<I>,
    pub backend: Option<B>,
}

impl AutoBle {
    /// The auto-interface of a host with the identity.
    #[must_use]
    pub fn new(identity: BleIdentity) -> (r: Self)
        ensures
            r.identity == identity,
    {
        AutoBle { identity }
    }

    /// The auto-interface of a host with the identity and a policy.
    #[must_use]
    pub fn with_policy<Y>(identity: BleIdentity, policy: Y) -> (r: ConfiguredAutoBle<Y>)
        ensures
            r.identity == identity,
            r.policy == policy,
    {
        ConfiguredAutoBle { identity, policy }
    }

    fn prepared<Y, U, I, B, E>(
        identity: BleIdentity,
        policy: Y,
        status: U,
        manager_preparation: AppleManagerPreparation<I>,
        backend: Result<B, E>,
    ) -> (r: Result<PreparedAutoBle<Y, U, I, B>, E>)
        ensures
            r == match backend {
                Ok(backend) => Ok(
                    PreparedAutoBle {
                        identity,
                        policy,
                        status,
                        manager_preparation,
                        backend: Some(backend),
                    },
                ),
                Err(error) => Err(error),
            },
    {
        match backend {
            Ok(backend) => Ok(
                PreparedAutoBle {
                    identity,
                    policy,
                    status,
                    manager_preparation,
                    backend: Some(backend),
                },
            ),
            Err(error) => Err(error),
        }
    }

    /// The auto-interface with the managers as the platform restores them, where they could be
    /// created. Radio authorization and service readiness are left to the attached supervisor.
    pub fn prepare<Y, U, I, B, E>(
        identity: BleIdentity,
        policy: Y,
        status: U,
        backend: Result<B, E>,
    ) -> (r: Result<PreparedAutoBle<Y, U, I, B>, E>)
        ensures
            r == match backend {
                Ok(backend) => Ok(
                    PreparedAutoBle {
                        identity,
                        policy,
                        status,
                        manager_preparation: AppleManagerPreparation::<I>::LegacyRestorationAware,
                        backend: Some(backend),
                    },
                ),
                Err(error) => Err(error),
            },
    {
        Self::prepared(
            identity,
            policy,
            status,
            AppleManagerPreparation::LegacyRestorationAware,
            backend,
        )
    }

    /// The auto-interface with managers restored under the identifiers, where they could be
    /// created. The identifiers are kept for every later retry.
    pub fn prepare_with_restoration<Y, U, I, B, E>(
        identity: BleIdentity,
        policy: Y,
        status: U,
        identifiers: CoreBluetoothRestorationIdentifiers,
        backend: Result<B, E>,
    ) -> (r: Result<PreparedAutoBle<Y, U, I, B>, E>)
        ensures
            r == match backend {
                Ok(backend) => Ok(
                    PreparedAutoBle {
                        identity,
                        policy,
                        status,
                        manager_preparation: AppleManagerPreparation::<I>::RestorationAware(
                            identifiers,
                        ),
                        backend: Some(backend),
                    },
                ),
                Err(error) => Err(error),
            },
    {
        Self::prepared(
            identity,
            policy,
            status,
            AppleManagerPreparation::RestorationAware(identifiers),
            backend,
        )
    }

    /// The auto-interface with a lone central manager restored under the identifier, where it could
    /// be created. The identifier is kept for every later retry.
    pub fn prepare_central_only_with_restoration<Y, U, I, B, E>(
        identity: BleIdentity,
        policy: Y,
        status: U,
        identifier: I,
        backend: Result<B, E>,
    ) -> (r: Result<PreparedAutoBle<Y, U, I, B>, E>)
        ensures
            r == match backend {
                Ok(backend) => Ok(
                    PreparedAutoBle {
                        identity,
                        policy,
                        status,
                        manager_preparation: AppleManagerPreparation::CentralOnlyRestorationAware(
                            identifier,
                        ),
                        backend: Some(backend),
                    },
                ),
                Err(error) => Err(error),
            },
    {
        Self::prepared(
            identity,
            policy,
            status,
            AppleManagerPreparation::CentralOnlyRestorationAware(identifier),
            backend,
        )
    }

    /// The auto-interface with managers that are not restored, where they could be created.
    pub fn prepare_without_restoration<Y, U, I, B, E>(
        identity: BleIdentity,
        policy: Y,
        status: U,
        backend: Result<B, E>,
    ) -> (r: Result<PreparedAutoBle<Y, U, I, B>, E>)
        ensures
            r == match backend {
                Ok(backend) => Ok(
                    PreparedAutoBle {
                        identity,
                        policy,
                        status,
                        manager_preparation: AppleManagerPreparation::<I>::WithoutRestoration,
                        backend: Some(backend),
                    },
                ),
                Err(error) => Err(error),
            },
    {
        Self::prepared(
            identity,
            policy,
            status,
            AppleManagerPreparation::WithoutRestoration,
            backend,
        )
    }

    /// The auto-interface with a lone central manager that is not restored, where it could be
    /// created.
    pub fn prepare_central_only_without_restoration<Y, U, I, B, E>(
        identity: BleIdentity,
        policy: Y,
        status: U,
        backend: Result<B, E>,
    ) -> (r: Result<PreparedAutoBle<Y, U, I, B>, E>)
        ensures
            r == match backend {
                Ok(backend) => Ok(
                    PreparedAutoBle {
                        identity,
                        policy,
                        status,
                        manager_preparation:
                            AppleManagerPreparation::<I>::CentralOnlyWithoutRestoration,
                        backend: Some(backend),
                    },
                ),
                Err(error) => Err(error),
            },
    {
        Self::prepared(
            identity,
            policy,
            status,
            AppleManagerPreparation::CentralOnlyWithoutRestoration,
            backend,
        )
    }

    /// A failed but supervised attachment, for managers that could not be created. Retries behave
    /// as [`AutoBle::prepare`] does.
    pub fn unavailable<Y, U, I, B>(identity: BleIdentity, policy: Y, status: U) -> (r:
        PreparedAutoBle<Y, U, I, B>)
        ensures
            r == (PreparedAutoBle {
                identity,
                policy,
                status,
                manager_preparation: AppleManagerPreparation::<I>::LegacyRestorationAware,
                backend: None::<B>,
            }),
    {
        PreparedAutoBle {
            identity,
            policy,
            status,
            manager_preparation: AppleManagerPreparation::LegacyRestorationAware,
            backend: None,
        }
    }

    /// A failed but supervised attachment whose retries use the identifiers.
    pub fn unavailable_with_restoration<Y, U, I, B>(
        identity: BleIdentity,
        policy: Y,
        status: U,
        identifiers: CoreBluetoothRestorationIdentifiers,
    ) -> (r: PreparedAutoBle<Y, U, I, B>)
        ensures
            r == (PreparedAutoBle {
                identity,
                policy,
                status,
                manager_preparation: AppleManagerPreparation::<I>::RestorationAware(identifiers),
                backend: None::<B>,
            }),
    {
        PreparedAutoBle {
            identity,
            policy,
            status,
            manager_preparation: AppleManagerPreparation::RestorationAware(identifiers),
            backend: None,
        }
    }

    /// A failed but supervised central-only attachment whose retries use the identifier.
    pub fn unavailable_central_only_with_restoration<Y, U, I, B>(
        identity: BleIdentity,
        policy: Y,
        status: U,
        identifier: I,
    ) -> (r: PreparedAutoBle<Y, U, I, B>)
        ensures
            r == (PreparedAutoBle {
                identity,
                policy,
                status,
                manager_preparation: AppleManagerPreparation::CentralOnlyRestorationAware(
                    identifier,
                ),
                backend: None::<B>,
            }),
    {
        PreparedAutoBle {
            identity,
            policy,
            status,
            manager_preparation: AppleManagerPreparation::CentralOnlyRestorationAware(identifier),
            backend: None,
        }
    }

    /// A failed but supervised attachment whose retries never opt into restoration.
    pub fn unavailable_without_restoration<Y, U, I, B>(
        identity: BleIdentity,
        policy: Y,
        status: U,
    ) -> (r: PreparedAutoBle<Y, U, I, B>)
        ensures
            r == (PreparedAutoBle {
                identity,
                policy,
                status,
                manager_preparation: AppleManagerPreparation::<I>::WithoutRestoration,
                backend: None::<B>,
            }),
    {
        PreparedAutoBle {
            identity,
            policy,
            status,
            manager_preparation: AppleManagerPreparation::WithoutRestoration,
            backend: None,
        }
    }

    /// A failed but supervised central-only attachment whose retries never opt into restoration.
    pub fn unavailable_central_only_without_restoration<Y, U, I, B>(
        identity: BleIdentity,
        policy: Y,
        status: U,
    ) -> (r: PreparedAutoBle<Y, U, I, B>)
        ensures
            r == (PreparedAutoBle {
                identity,
                policy,
                status,
                manager_preparation: AppleManagerPreparation::<I>::CentralOnlyWithoutRestoration,
                backend: None::<B>,
            }),
    {
        PreparedAutoBle {
            identity,
            policy,
            status,
            manager_preparation: AppleManagerPreparation::CentralOnlyWithoutRestoration,
            backend: None,
        }
    }
}

/// An attached auto-interface, by its status.
pub struct AttachedBle<U> {
    pub status: U,
}

impl<U> AttachedBle<U> {
    /// The status of the interface.
    #[must_use]
    pub fn status(&self) -> (r: U) where U: Clone
        ensures
            cloned(self.status, r),
    {
        self.status.clone()
    }

    /// The id of the interface, which `id` reads from its status.
    #[must_use]
    pub fn id<N, F: Fn(&U) -> N>(&self, id: F) -> (r: N)
        requires
            call_requires(id, (&self.status,)),
        ensures
            call_ensures(id, (&self.status,), r),
    {
        id(&self.status)
    }
}

/// Where a host's Bluetooth comes from.
#[derive(Clone, Copy, Debug, PartialEq, Eq, Structural)]
pub enum Endpoint {
    CoreBluetooth(ApplePlatform),
    WinRt,
    BlueZ,
}

/// The platform of a host.
#[derive(Clone, Copy, Debug, PartialEq, Eq, Structural)]
pub enum HostPlatform {
    Apple(ApplePlatform),
    Windows,
    Linux,
    Other,
}

/// The endpoint that a host's backend serves, where the platform has a backend.
pub open spec fn endpoint_of(platform: HostPlatform) -> Option<Endpoint> {
    match platform {
        HostPlatform::Apple(apple) => Some(Endpoint::CoreBluetooth(apple)),
        HostPlatform::Windows => Some(Endpoint::WinRt),
        HostPlatform::Linux => Some(Endpoint::BlueZ),
        HostPlatform::Other => None,
    }
}

/// The endpoint that a host's backend serves, where the platform has a backend.
pub fn platform_endpoint(platform: HostPlatform) -> (r: Option<Endpoint>)
    ensures
        r == endpoint_of(platform),
{
    match platform {
        HostPlatform::Apple(apple) => Some(Endpoint::CoreBluetooth(apple)),
        HostPlatform::Windows => Some(Endpoint::WinRt),
        HostPlatform::Linux => Some(Endpoint::BlueZ),
        HostPlatform::Other => None,
    }
}

/// The PSM that links advertise. Only macOS and Linux offer L2CAP, and a backend of the central
/// role alone has no listener.
pub open spec fn capability<S>(platform: HostPlatform, central_only: bool, psm: S) -> Option<S> {
    if !central_only && (platform == HostPlatform::Apple(ApplePlatform::Macos) || platform
        == HostPlatform::Linux) {
        Some(psm)
    } else {
        None
    }
}

/// The PSM that links advertise.
pub fn l2cap_capability<S>(platform: HostPlatform, central_only: bool, psm: S) -> (r: Option<S>)
    ensures
        r == capability(platform, central_only, psm),
{
    if central_only {
        return None;
    }
    match platform {
        HostPlatform::Apple(ApplePlatform::Macos) => Some(psm),
        HostPlatform::Linux => Some(psm),
        _ => None,
    }
}

/// What stands between a host and its Bluetooth.
#[derive(Clone, Copy, Debug, PartialEq, Eq, Structural)]
pub enum PlatformFailure {
    /// The native managers could not be created.
    ManagerUnavailable,
    /// The control PSM is not one.
    InvalidControlPsm,
    /// The backend did not come up.
    BackendUnavailable,
}

/// What a host's status says of a failure.
pub open spec fn failure_text(platform: HostPlatform, failure: PlatformFailure) -> Seq<char> {
    match failure {
        PlatformFailure::ManagerUnavailable => "Bluetooth native manager unavailable"@,
        PlatformFailure::InvalidControlPsm => "invalid Linux control PSM"@,
        PlatformFailure::BackendUnavailable => match platform {
            HostPlatform::Apple(_) => "Bluetooth not granted or radio unavailable"@,
            HostPlatform::Windows => "Bluetooth off or unsupported"@,
            HostPlatform::Linux => "bluetoothd or adapter unavailable"@,
            HostPlatform::Other => "no native BLE backend for this platform"@,
        },
    }
}

/// What a host's status says of a failure.
pub fn failure_message(platform: HostPlatform, failure: PlatformFailure) -> (r: &'static str)
    ensures
        r@ == failure_text(platform, failure),
{
    match failure {
        PlatformFailure::ManagerUnavailable => "Bluetooth native manager unavailable",
        PlatformFailure::InvalidControlPsm => "invalid Linux control PSM",
        PlatformFailure::BackendUnavailable => match platform {
            HostPlatform::Apple(_) => "Bluetooth not granted or radio unavailable",
            HostPlatform::Windows => "Bluetooth off or unsupported",
            HostPlatform::Linux => "bluetoothd or adapter unavailable",
            HostPlatform::Other => "no native BLE backend for this platform",
        },
    }
}

/// What links of an interface offer. `S` is a PSM.
#[derive(Clone, Copy, Debug, PartialEq, Eq, Structural)]
pub struct LinkCapabilities<S> {
    pub l2cap: Option<S>,
    pub link_mtu: u16,
}

/// A backend and everything by which it is supervised. `B` is the backend, `S` a PSM and `Y` a
/// policy.
pub struct Supervision<B, S, Y> {
    pub backend: B,
    pub identity: BleIdentity,
    pub endpoint: Endpoint,
    pub capabilities: LinkCapabilities<S>,
    pub policy: Y,
}

/// What becomes of an interface whose backend was opened, or was not: it is supervised under its
/// identity and its policy, or its status shows for good why not. A host without a backend of its
/// own never opens one.
pub fn platform_supervision<B, S, Y>(
    interface: ConfiguredAutoBle<Y>,
    platform: HostPlatform,
    link_mtu: u16,
    opened: Result<(B, S), PlatformFailure>,
) -> (r: Result<Supervision<B, S, Y>, &'static str>)
    ensures
        match (endpoint_of(platform), opened) {
            (Some(endpoint), Ok((backend, psm))) => r == Ok::<Supervision<B, S, Y>, &'static str>(
                Supervision {
                    backend,
                    identity: interface.identity,
                    endpoint,
                    capabilities: LinkCapabilities {
                        l2cap: capability(platform, false, psm),
                        link_mtu,
                    },
                    policy: interface.policy,
                },
            ),
            (Some(_), Err(failure)) => r matches Err(message) && message@ == failure_text(
                platform,
                failure,
            ),
            (None, _) => r matches Err(message) && message@ == failure_text(
                platform,
                PlatformFailure::BackendUnavailable,
            ),
        },
{
    let endpoint = match platform_endpoint(platform) {
        Some(endpoint) => endpoint,
        None => {
            return Err(failure_message(platform, PlatformFailure::BackendUnavailable));
        },
    };
    match opened {
        Ok((backend, psm)) => Ok(
            Supervision {
                backend,
                identity: interface.identity,
                endpoint,
                capabilities: LinkCapabilities {
                    l2cap: l2cap_capability(platform, false, psm),
                    link_mtu,
                },
                policy: interface.policy,
            },
        ),
        Err(failure) => Err(failure_message(platform, failure)),
    }
}

/// A backend that became ready.
pub enum ReadyAppleBackend<M, N> {
    DualRole(M),
    CentralOnly(N),
}

/// What the supervisor of a prepared interface is told. `S` is the PSM of a backend of both roles.
pub enum SupervisorEvent<B, M, N, S> {
    /// It starts, or its wait is over.
    Start,
    /// The managers were created, or could not be.
    Prepared(Option<B>),
    /// The backend of both roles became ready, with its PSM.
    DualRoleReady { backend: M, psm: S },
    /// The backend of the central role alone became ready.
    CentralOnlyReady { backend: N },
    /// The backend will not become ready.
    NotReady,
}

/// What the supervisor of a prepared interface does next.
pub enum SupervisorStep<B, M, N, S, Y, I> {
    /// Create the managers under the identity of the interface.
    Prepare { identity: BleIdentity, request: BackendRequest<I> },
    /// Wait for the backend to become ready.
    AwaitReady(B),
    /// Show the failure, then wait before starting again.
    Retry { message: &'static str, delay_ms: u64 },
    /// Show no failure any more and supervise the backend for good.
    Supervise(Supervision<ReadyAppleBackend<M, N>, S, Y>),
}

/// The supervisor of a prepared interface. It holds the managers that were created ahead of it.
pub struct PreparedSupervisor<Y, I, B> {
    pub platform: ApplePlatform,
    pub identity: BleIdentity,
    pub policy: Y,
    pub link_mtu: u16,
    pub manager_preparation: AppleManagerPreparation<I>,
    pub prepared: Option<B>,
}

impl<Y, I, B> PreparedSupervisor<Y, I, B> {
    /// The supervisor of the interface, and the status in which it shows what it does.
    pub fn new<U>(
        interface: PreparedAutoBle<Y, U, I, B>,
        platform: ApplePlatform,
        link_mtu: u16,
    ) -> (r: (Self, U))
        ensures
            r == (
                PreparedSupervisor {
                    platform,
                    identity: interface.identity,
                    policy: interface.policy,
                    link_mtu,
                    manager_preparation: interface.manager_preparation,
                    prepared: interface.backend,
                },
                interface.status,
            ),
    {
        (
            PreparedSupervisor {
                platform,
                identity: interface.identity,
                policy: interface.policy,
                link_mtu,
                manager_preparation: interface.manager_preparation,
                prepared: interface.backend,
            },
            interface.status,
        )
    }

    /// How the ready backend is supervised: under the identity, the policy and the MTU of the
    /// interface, and with L2CAP where the platform offers it and the backend listens.
    pub open spec fn supervision<M, N, S>(
        self,
        backend: ReadyAppleBackend<M, N>,
        psm: Option<S>,
    ) -> Supervision<ReadyAppleBackend<M, N>, S, Y> {
        Supervision {
            backend,
            identity: self.identity,
            endpoint: Endpoint::CoreBluetooth(self.platform),
            capabilities: LinkCapabilities {
                l2cap: match psm {
                    Some(psm) => capability(HostPlatform::Apple(self.platform), false, psm),
                    None => None,
                },
                link_mtu: self.link_mtu,
            },
            policy: self.policy,
        }
    }

    /// The failure is shown, and everything starts again after a while.
    pub open spec fn retries<M, N, S>(
        self,
        step: SupervisorStep<B, M, N, S, Y, I>,
        failure: PlatformFailure,
    ) -> bool {
        &&& step matches SupervisorStep::Retry { message, delay_ms }
        &&& message@ == failure_text(HostPlatform::Apple(self.platform), failure)
        &&& delay_ms == APPLE_BLE_READINESS_RETRY_DELAY_MS
    }

    fn retry<M, N, S>(&self, failure: PlatformFailure) -> (r: SupervisorStep<B, M, N, S, Y, I>)
        ensures
            self.retries(r, failure),
    {
        SupervisorStep::Retry {
            message: failure_message(HostPlatform::Apple(self.platform), failure),
            delay_ms: APPLE_BLE_READINESS_RETRY_DELAY_MS,
        }
    }

    /// What the supervisor does next. Managers that were created ahead are used once; after that,
    /// and after every failure, new ones are created as the interface was prepared. It never gives
    /// up, and it ends with a backend to supervise.
    pub fn next<M, N, S>(&mut self, event: SupervisorEvent<B, M, N, S>) -> (r: SupervisorStep<
        B,
        M,
        N,
        S,
        Y,
        I,
    >) where Y: Copy, I: Clone
        ensures
            *final(self) == (PreparedSupervisor {
                prepared: if event is Start {
                    None
                } else {
                    old(self).prepared
                },
                ..*old(self)
            }),
            match event {
                SupervisorEvent::Start => match old(self).prepared {
                    Some(backend) => r == SupervisorStep::<B, M, N, S, Y, I>::AwaitReady(backend),
                    None => r matches SupervisorStep::Prepare { identity, request } && identity
                        == old(self).identity && old(self).manager_preparation.requests(
                        old(self).platform,
                        request,
                    ),
                },
                SupervisorEvent::Prepared(Some(backend)) => r == SupervisorStep::<
                    B,
                    M,
                    N,
                    S,
                    Y,
                    I,
                >::AwaitReady(backend),
                SupervisorEvent::Prepared(None) => old(self).retries(
                    r,
                    PlatformFailure::ManagerUnavailable,
                ),
                SupervisorEvent::DualRoleReady { backend, psm } => r == SupervisorStep::<
                    B,
                    M,
                    N,
                    S,
                    Y,
                    I,
                >::Supervise(
                    old(self).supervision(ReadyAppleBackend::<M, N>::DualRole(backend), Some(psm)),
                ),
                SupervisorEvent::CentralOnlyReady { backend } => r == SupervisorStep::<
                    B,
                    M,
                    N,
                    S,
                    Y,
                    I,
                >::Supervise(
                    old(self).supervision(
                        ReadyAppleBackend::<M, N>::CentralOnly(backend),
                        None::<S>,
                    ),
                ),
                SupervisorEvent::NotReady => old(self).retries(
                    r,
                    PlatformFailure::BackendUnavailable,
                ),
            },
    {
        match event {
            SupervisorEvent::Start => match self.prepared.take() {
                Some(backend) => SupervisorStep::AwaitReady(backend),
                None => SupervisorStep::Prepare {
                    identity: self.identity,
                    request: self.manager_preparation.request(self.platform),
                },
            },
            SupervisorEvent::Prepared(Some(backend)) => SupervisorStep::AwaitReady(backend),
            SupervisorEvent::Prepared(None) => self.retry(PlatformFailure::ManagerUnavailable),
            SupervisorEvent::DualRoleReady { backend, psm } => SupervisorStep::Supervise(
                Supervision {
                    backend: ReadyAppleBackend::DualRole(backend),
                    identity: self.identity,
                    endpoint: Endpoint::CoreBluetooth(self.platform),
                    capabilities: LinkCapabilities {
                        l2cap: l2cap_capability(HostPlatform::Apple(self.platform), false, psm),
                        link_mtu: self.link_mtu,
                    },
                    policy: self.policy,
                },
            ),
            SupervisorEvent::CentralOnlyReady { backend } => SupervisorStep::Supervise(
                Supervision {
                    backend: ReadyAppleBackend::CentralOnly(backend),
                    identity: self.identity,
                    endpoint: Endpoint::CoreBluetooth(self.platform),
                    capabilities: LinkCapabilities { l2cap: None, link_mtu: self.link_mtu },
                    policy: self.policy,
                },
            ),
            SupervisorEvent::NotReady => self.retry(PlatformFailure::BackendUnavailable),
        }
    }
}

} // verus!
