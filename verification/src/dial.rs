//! Whether and how a dial goes ahead.

use crate::peer::CoreBluetoothPeerId;
use vstd::prelude::*;

verus! {

/// What CoreBluetooth says of the link to one exact peripheral.
#[derive(Clone, Copy, Debug, PartialEq, Eq, Structural)]
pub enum PeripheralLinkState {
    Disconnected,
    Connecting,
    Connected,
    Disconnecting,
    Unknown,
}

/// How a dial is answered.
#[derive(Clone, Copy, Debug, PartialEq, Eq, Structural)]
pub enum DialAdmission {
    /// An ordinary dial: attach a session and ask for a connection.
    AttachCentralSession,
    /// CoreBluetooth restored this central-role connection for the application. Reattach the
    /// delegate and session, then resume discovery without issuing another connection request.
    ResumeRestoredSession,
    /// CoreBluetooth restored a pending connection. Reattach the session and let the existing
    /// request complete instead of issuing a duplicate request.
    AwaitRestoredConnection,
    /// The restored peripheral is already disconnecting or reports an unknown state. Do not
    /// attach protocol state to a connection whose completion semantics are unavailable.
    RejectRestoredConnection,
    /// The peer is connected system-wide outside this manager's restored state.
    YieldToSystemConnection,
    /// The target peer already owns an inbound peripheral session. Dialing that same peer as a
    /// central would create the dual-role link that handshake policy is trying to eliminate.
    YieldToInboundSession,
}

/// How a dial is answered. An inbound session of the target comes first; a restored connection is
/// judged by the state of its exact peripheral, and only an ordinary observation yields to a
/// system-wide connection.
pub open spec fn admission(
    already_system_connected: bool,
    target_has_inbound_session: bool,
    restored_state: Option<PeripheralLinkState>,
) -> DialAdmission {
    if target_has_inbound_session {
        DialAdmission::YieldToInboundSession
    } else {
        match restored_state {
            Some(PeripheralLinkState::Connected) => DialAdmission::ResumeRestoredSession,
            Some(PeripheralLinkState::Connecting) => DialAdmission::AwaitRestoredConnection,
            Some(PeripheralLinkState::Disconnected) => DialAdmission::AttachCentralSession,
            Some(_) => DialAdmission::RejectRestoredConnection,
            None => if already_system_connected {
                DialAdmission::YieldToSystemConnection
            } else {
                DialAdmission::AttachCentralSession
            },
        }
    }
}

/// Answers a dial.
pub fn dial_admission(
    already_system_connected: bool,
    target_has_inbound_session: bool,
    restored_state: Option<PeripheralLinkState>,
) -> (r: DialAdmission)
    ensures
        r == admission(already_system_connected, target_has_inbound_session, restored_state),
{
    if target_has_inbound_session {
        DialAdmission::YieldToInboundSession
    } else if let Some(state) = restored_state {
        match state {
            PeripheralLinkState::Connected => DialAdmission::ResumeRestoredSession,
            PeripheralLinkState::Connecting => DialAdmission::AwaitRestoredConnection,
            PeripheralLinkState::Disconnected => DialAdmission::AttachCentralSession,
            PeripheralLinkState::Disconnecting | PeripheralLinkState::Unknown => {
                DialAdmission::RejectRestoredConnection
            },
        }
    } else if already_system_connected {
        DialAdmission::YieldToSystemConnection
    } else {
        DialAdmission::AttachCentralSession
    }
}

/// Why a dial did not get a session.
#[derive(Clone, Copy, Debug, PartialEq, Eq, Structural)]
pub enum DialRejection {
    YieldToSystemConnection,
    YieldToInboundSession,
    RestoredConnectionUnavailable,
    ExistingCentralSession,
    RadioOff,
}

/// What a dial asks of CoreBluetooth once its session has begun.
#[derive(Clone, Copy, Debug, PartialEq, Eq, Structural)]
pub enum DialStart {
    Connect,
    AwaitConnection,
    Discover,
}

/// How a dial goes on from its admission.
#[derive(Clone, Copy, Debug, PartialEq, Eq, Structural)]
pub enum DialPlan {
    /// Begin the session, then do this.
    Begin(DialStart),
    /// Forget the peer and reject the dial, cancelling its connection first where told so.
    Reject { rejection: DialRejection, cancel_connection: bool },
}

/// How a dial goes on from its admission.
pub open spec fn plan(admission: DialAdmission, restored_connection: bool) -> DialPlan {
    match admission {
        DialAdmission::YieldToSystemConnection => DialPlan::Reject {
            rejection: DialRejection::YieldToSystemConnection,
            cancel_connection: false,
        },
        DialAdmission::YieldToInboundSession => DialPlan::Reject {
            rejection: DialRejection::YieldToInboundSession,
            cancel_connection: restored_connection,
        },
        DialAdmission::RejectRestoredConnection => DialPlan::Reject {
            rejection: DialRejection::RestoredConnectionUnavailable,
            cancel_connection: false,
        },
        DialAdmission::AttachCentralSession => DialPlan::Begin(DialStart::Connect),
        DialAdmission::ResumeRestoredSession => DialPlan::Begin(DialStart::Discover),
        DialAdmission::AwaitRestoredConnection => DialPlan::Begin(DialStart::AwaitConnection),
    }
}

/// Decides how a dial goes on from its admission.
pub fn dial_plan(admission: DialAdmission, restored_connection: bool) -> (r: DialPlan)
    ensures
        r == plan(admission, restored_connection),
{
    match admission {
        DialAdmission::YieldToSystemConnection => DialPlan::Reject {
            rejection: DialRejection::YieldToSystemConnection,
            cancel_connection: false,
        },
        DialAdmission::YieldToInboundSession => DialPlan::Reject {
            rejection: DialRejection::YieldToInboundSession,
            cancel_connection: restored_connection,
        },
        DialAdmission::RejectRestoredConnection => DialPlan::Reject {
            rejection: DialRejection::RestoredConnectionUnavailable,
            cancel_connection: false,
        },
        DialAdmission::AttachCentralSession => DialPlan::Begin(DialStart::Connect),
        DialAdmission::ResumeRestoredSession => DialPlan::Begin(DialStart::Discover),
        DialAdmission::AwaitRestoredConnection => DialPlan::Begin(DialStart::AwaitConnection),
    }
}

/// The exact peer is among those that are connected system-wide.
pub fn is_system_connected(connected: &Vec<CoreBluetoothPeerId>, peer_id: CoreBluetoothPeerId) -> (r:
    bool)
    ensures
        r == connected@.contains(peer_id),
{
    let mut i: usize = 0;
    while i < connected.len()
        invariant
            0 <= i <= connected@.len(),
            forall|j: int| 0 <= j < i ==> connected@[j] != peer_id,
        decreases connected@.len() - i,
    {
        if connected[i] == peer_id {
            return true;
        }
        i += 1;
    }
    false
}

/// What is known of the link when a dial begins.
#[derive(Clone, Copy, Debug, PartialEq, Eq, Structural)]
pub struct DialFacts {
    pub link_state: PeripheralLinkState,
    pub system_connected: bool,
    pub target_has_inbound_session: bool,
    /// CoreBluetooth restored the connection.
    pub restored_connection: bool,
}

impl DialFacts {
    /// How the dial goes on. The system-wide query is only a guard for an ordinary observation: a
    /// restored connection is judged by its exact peripheral.
    pub open spec fn plan(self) -> DialPlan {
        plan(
            if self.restored_connection {
                admission(false, self.target_has_inbound_session, Some(self.link_state))
            } else {
                admission(self.system_connected, self.target_has_inbound_session, None)
            },
            self.restored_connection,
        )
    }
}

/// Decides how a dial goes on from what is known of the link.
pub fn begin_dial(facts: DialFacts) -> (r: DialPlan)
    ensures
        r == facts.plan(),
{
    let restored_state = if facts.restored_connection {
        Some(facts.link_state)
    } else {
        None
    };
    let already_system_connected = !facts.restored_connection && facts.system_connected;
    let answer = dial_admission(
        already_system_connected,
        facts.target_has_inbound_session,
        restored_state,
    );
    dial_plan(answer, facts.restored_connection)
}

/// A peer that owns an inbound session is never dialed.
pub proof fn law_inbound_session_is_never_dialed(
    system_connected: bool,
    restored_state: Option<PeripheralLinkState>,
)
    ensures
        plan(admission(system_connected, true, restored_state), restored_state is Some)
            == (DialPlan::Reject {
            rejection: DialRejection::YieldToInboundSession,
            cancel_connection: restored_state is Some,
        }),
{
}

/// A new connection is asked for only where none is restored or pending.
pub proof fn law_connection_is_not_requested_twice(
    system_connected: bool,
    inbound: bool,
    restored_state: Option<PeripheralLinkState>,
)
    ensures
        plan(admission(system_connected, inbound, restored_state), restored_state is Some)
            == DialPlan::Begin(DialStart::Connect) <==> !inbound && match restored_state {
            Some(state) => state == PeripheralLinkState::Disconnected,
            None => !system_connected,
        },
{
}

} // verus!
