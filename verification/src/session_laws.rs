//! What holds of a central-role session: who is told of its writes, and what it is handed over with.

use crate::central::CentralState;
use crate::central_laws;
use crate::dial::DialRejection;
use crate::error::MacosBleError;
use crate::gatt_write::{
    GattWriteMode, GattWritePlan, GattWriteRequest, GattWriteTarget, WriteProperties,
};
use crate::ingress::{BoundedIngress, GattInbox, Offer};
use crate::peer::{BleAddress, BleIdentity, CoreBluetoothPeerId, PeerProtocol};
use crate::session::{
    issue_unacknowledged_write,
    CentralPeerSession, CentralProfile, ColumbaReadiness, CompletionDelivery, DialCompletion,
    WriteReply, WriteStep,
};
use tokio::sync::{mpsc, oneshot};
use vstd::prelude::*;

verus! {

/// The step sends the bytes of the request to its characteristic without a response, and tells its
/// writer that this is done.
pub open spec fn sends_and_tells<K, T>(
    step: WriteStep<K, T>,
    request: GattWriteRequest<K, T>,
) -> bool {
    &&& step matches WriteStep::Unacknowledged { characteristic, bytes, report }
    &&& characteristic == request.characteristic
    &&& bytes == request.bytes
    &&& report.reply == request.reply
    &&& report.result is Ok
}

/// The step sends nothing and tells the writer of the request that there was no room.
pub open spec fn turns_down<K, T>(step: WriteStep<K, T>, request: GattWriteRequest<K, T>) -> bool {
    &&& step matches WriteStep::Refused { report }
    &&& report.reply == request.reply
    &&& report.result == Err::<(), MacosBleError>(MacosBleError::QueueFull)
}

impl<C, K, D, T> CentralPeerSession<C, K, D, T> {
    /// But for its writes, the session is the earlier one.
    pub open spec fn keeps_all_but_writes(self, earlier: Self) -> bool {
        &&& self.address == earlier.address
        &&& self.control_tx == earlier.control_tx
        &&& self.data_tx == earlier.data_tx
        &&& self.completion_tx == earlier.completion_tx
        &&& self.profile == earlier.profile
    }

    /// A submitted write goes out at once, waits, or is turned down, and its writer is told exactly
    /// then: one without a response is done once it was sent, whatever else is outstanding, and one
    /// with a response is done once the peer has answered. An error is told only of a write that
    /// was not sent.
    pub proof fn law_submitted_write(
        self,
        after: Self,
        request: GattWriteRequest<K, T>,
        can_send: bool,
        step: WriteStep<K, T>,
    ) where K: Clone
        requires
            self.submits(after, request, can_send, step),
        ensures
            after.keeps_all_but_writes(self),
            match request.mode {
                GattWriteMode::WithResponse => {
                    &&& after.unacknowledged_write == self.unacknowledged_write
                    &&& if self.acknowledged_write is None {
                        &&& step matches WriteStep::Acknowledged { characteristic, bytes }
                        &&& cloned(request.characteristic, characteristic)
                        &&& bytes == request.bytes
                        &&& after.acknowledged_write matches Some(pending)
                        &&& pending.characteristic == request.characteristic
                        &&& pending.reply == request.reply
                    } else {
                        &&& turns_down(step, request)
                        &&& after.acknowledged_write == self.acknowledged_write
                    }
                },
                GattWriteMode::WithoutResponse => {
                    &&& after.acknowledged_write == self.acknowledged_write
                    &&& if self.unacknowledged_write is Some {
                        &&& turns_down(step, request)
                        &&& after.unacknowledged_write == self.unacknowledged_write
                    } else if can_send {
                        &&& sends_and_tells(step, request)
                        &&& after.unacknowledged_write is None
                    } else {
                        &&& step is Idle
                        &&& after.unacknowledged_write == Some(request)
                    }
                },
            },
            step matches WriteStep::Unacknowledged { report, .. } ==> report.result is Ok,
            step matches WriteStep::Refused { report } ==> report.result is Err,
    {
    }

    /// A write that had to wait ends like one that did not: once the peripheral can take it, it is
    /// sent as it was submitted and its writer is told that it is done. It is dropped only where
    /// its writer is gone, it waits on where it cannot be sent, and no error is ever told of it.
    pub proof fn law_waiting_write<F: Fn(&T) -> bool>(
        self,
        after: Self,
        receiver_closed: F,
        can_send: bool,
        step: WriteStep<K, T>,
    )
        requires
            self.drains(after, receiver_closed, can_send, step),
        ensures
            after.keeps_all_but_writes(self),
            after.acknowledged_write == self.acknowledged_write,
            step is Idle || step is Unacknowledged,
            match self.unacknowledged_write {
                None => step is Idle && after.unacknowledged_write is None,
                Some(request) => {
                    ||| {
                        &&& can_send
                        &&& call_ensures(receiver_closed, (&request.reply,), false)
                        &&& sends_and_tells(step, request)
                        &&& after.unacknowledged_write is None
                    }
                    ||| {
                        &&& !can_send
                        &&& call_ensures(receiver_closed, (&request.reply,), false)
                        &&& step is Idle
                        &&& after.unacknowledged_write == Some(request)
                    }
                    ||| {
                        &&& call_ensures(receiver_closed, (&request.reply,), true)
                        &&& step is Idle
                        &&& after.unacknowledged_write is None
                    }
                },
            },
    {
    }

    /// Whether a write without a response could be sent at once or had to wait, the peripheral is
    /// asked for the same and its writer is told the same.
    pub proof fn law_waiting_changes_nothing<F: Fn(&T) -> bool>(
        self,
        waited: Self,
        at_once: Self,
        drained: Self,
        request: GattWriteRequest<K, T>,
        receiver_closed: F,
        now: WriteStep<K, T>,
        first: WriteStep<K, T>,
        later: WriteStep<K, T>,
    ) where K: Clone
        requires
            request.mode == GattWriteMode::WithoutResponse,
            self.unacknowledged_write is None,
            !call_ensures(receiver_closed, (&request.reply,), true),
            self.submits(at_once, request, true, now),
            self.submits(waited, request, false, first),
            waited.drains(drained, receiver_closed, true, later),
        ensures
            first is Idle,
            later == now,
            drained == at_once,
            drained == self,
    {
    }
}

impl<C, K, D, T> CentralPeerSession<C, K, D, T> {
    /// A native session is handed over to whoever dialed it, once: as a native peer without an
    /// identity, by the control characteristic that notifies and the data target that was found.
    pub proof fn law_native_handover(self, control: K)
        ensures
            ({
                let (after, told) = self.after_native_ready(control);
                &&& after.keeps_all_but_handover(self)
                &&& match self.profile {
                    CentralProfile::Native { data } => {
                        &&& after.profile is Ready && after.completion_tx is None
                        &&& told is Some <==> self.completion_tx is Some
                        &&& told matches Some(told) ==> {
                            &&& Some(told.completion_tx) == self.completion_tx
                            &&& told.completion matches DialCompletion::Ready(chars)
                            &&& chars.peer_protocol == PeerProtocol::Native
                            &&& chars.peer_identity is None
                            &&& chars.control == control
                            &&& chars.data == data
                        }
                    },
                    _ => told is None && after == self,
                }
            }),
    {
    }

    /// But for what its handover changes, the session is the earlier one.
    pub open spec fn keeps_all_but_handover(self, earlier: Self) -> bool {
        &&& self.address == earlier.address
        &&& self.control_tx == earlier.control_tx
        &&& self.data_tx == earlier.data_tx
        &&& self.acknowledged_write == earlier.acknowledged_write
        &&& self.unacknowledged_write == earlier.unacknowledged_write
    }
}

/// The delivery hands a Columba peer over to the dialer, under the identity and by its write target.
pub open spec fn tells_of_columba<K: Clone>(
    told: CompletionDelivery<K>,
    write: GattWriteTarget<K>,
    identity: BleIdentity,
) -> bool {
    &&& told.completion matches DialCompletion::Ready(chars)
    &&& chars.peer_protocol == PeerProtocol::Columba
    &&& chars.peer_identity == Some(identity)
    &&& cloned(write.characteristic, chars.control)
    &&& chars.data == Some(write)
}

impl<C, K: Clone, D, T> CentralPeerSession<C, K, D, T> {
    /// A Columba session waits for two things, and whichever comes second hands it over to whoever
    /// dialed it: under the identity that came last, and by the characteristic that takes its
    /// writes. Until then nobody is told anything, and a session of another profile is left alone.
    pub proof fn law_columba_handover(
        self,
        identified: Self,
        subscribed: Self,
        identity: BleIdentity,
        told_by_identity: Option<CompletionDelivery<K>>,
        told_by_subscription: Option<CompletionDelivery<K>>,
    )
        requires
            self.identifies(identified, identity, told_by_identity),
            self.subscribes(subscribed, told_by_subscription),
        ensures
            identified.keeps_all_but_handover(self),
            subscribed.keeps_all_but_handover(self),
            match self.profile {
                CentralProfile::Columba { write, notify, readiness } => match readiness {
                    ColumbaReadiness::AwaitingIdentityAndSubscription => {
                        &&& told_by_identity is None && told_by_subscription is None
                        &&& identified.completion_tx == self.completion_tx
                        &&& subscribed.completion_tx == self.completion_tx
                        &&& identified.profile == (CentralProfile::Columba {
                            write,
                            notify,
                            readiness: ColumbaReadiness::Identified(identity),
                        })
                        &&& subscribed.profile == (CentralProfile::Columba {
                            write,
                            notify,
                            readiness: ColumbaReadiness::Subscribed,
                        })
                    },
                    ColumbaReadiness::Subscribed => {
                        &&& told_by_subscription is None && subscribed == self
                        &&& identified.profile is Ready && identified.completion_tx is None
                        &&& told_by_identity is Some <==> self.completion_tx is Some
                        &&& told_by_identity matches Some(told) ==> Some(told.completion_tx)
                            == self.completion_tx && tells_of_columba(told, write, identity)
                    },
                    ColumbaReadiness::Identified(earlier) => {
                        &&& told_by_identity is None
                        &&& identified.completion_tx == self.completion_tx
                        &&& identified.profile == (CentralProfile::Columba {
                            write,
                            notify,
                            readiness: ColumbaReadiness::Identified(identity),
                        })
                        &&& subscribed.profile is Ready && subscribed.completion_tx is None
                        &&& told_by_subscription is Some <==> self.completion_tx is Some
                        &&& told_by_subscription matches Some(told) ==> Some(told.completion_tx)
                            == self.completion_tx && tells_of_columba(told, write, earlier)
                    },
                },
                _ => {
                    &&& told_by_identity is None && told_by_subscription is None
                    &&& identified == self && subscribed == self
                },
            },
    {
    }
}

/// A plan is made exactly where the characteristic takes writes of the mode and a fragment is longer
/// than its header, and it keeps the mode. A fragment fits whichever mode carries it and is never
/// longer than the limit; it is as long as these allow.
pub proof fn law_write_plan(
    mode: GattWriteMode,
    properties: WriteProperties,
    with_response: usize,
    without_response: usize,
    plan: Result<GattWritePlan, MacosBleError>,
)
    requires
        call_ensures(
            GattWritePlan::from_discovery,
            (mode, properties, with_response, without_response),
            plan,
        ),
    ensures
        ({
            let takes = (mode is WithResponse && properties.write) || (mode is WithoutResponse
                && properties.write_without_response);
            let fits = with_response > 5 && without_response > 5;
            match plan {
                Ok(plan) => {
                    &&& takes && fits
                    &&& plan.planned_mode() == mode
                    &&& plan.planned_mtu() <= with_response
                    &&& plan.planned_mtu() <= without_response
                    &&& plan.planned_mtu() <= 180
                    &&& plan.planned_mtu() == with_response || plan.planned_mtu()
                        == without_response || plan.planned_mtu() == 180
                },
                Err(error) => {
                    &&& !takes <==> error == MacosBleError::UnsupportedWriteMode
                    &&& takes ==> !fits && error == MacosBleError::InvalidWriteMtu
                },
            }
        }),
{
}

/// Whenever a write is issued without a response, its writer is told that it is done, and with
/// nothing else: the bytes go as they were given to the characteristic that was named.
pub proof fn law_issued_write_is_done<K, T>(
    request: GattWriteRequest<K, T>,
    step: WriteStep<K, T>,
)
    requires
        call_ensures(issue_unacknowledged_write::<K, T>, (request,), step),
    ensures
        sends_and_tells(step, request),
{
}

/// The writer is told that the write is done, or nothing was sent of it and the writer is told why.
/// Nobody is told of another writer's request.
pub open spec fn reports_truly<K, T>(
    step: WriteStep<K, T>,
    request: GattWriteRequest<K, T>,
) -> bool {
    match step {
        WriteStep::Idle => true,
        WriteStep::Acknowledged { characteristic, bytes } => bytes == request.bytes
            && request.mode == GattWriteMode::WithResponse,
        WriteStep::Unacknowledged { .. } => sends_and_tells(step, request) && request.mode
            == GattWriteMode::WithoutResponse,
        WriteStep::Refused { report } => report.reply == request.reply && report.result is Err,
    }
}

/// A write to a peer without a session, or with the radio off, is refused as closed and changes
/// nothing. One to a peer with a session goes out at once, waits or is turned down as its session
/// has room, and what its writer is told is true. Nobody else's session is touched.
pub proof fn law_write_of_a_peer<P, C, K: Clone, D, T>(
    state: &mut CentralState<P, C, K, D, T>,
    radio_enabled: bool,
    peer_id: CoreBluetoothPeerId,
    request: GattWriteRequest<K, T>,
    can_send: bool,
    step: WriteStep<K, T>,
)
    requires
        call_ensures(
            CentralState::<P, C, K, D, T>::submit_write,
            (state, radio_enabled, peer_id, request, can_send),
            step,
        ),
    ensures
        reports_truly(step, request),
        final(state)@.registry == old(state)@.registry,
        central_laws::keeps_other_sessions(old(state)@, final(state)@, peer_id),
        final(state)@.sessions.dom().contains(peer_id) <==> old(
            state)@.sessions.dom().contains(peer_id),
        if radio_enabled && old(state)@.sessions.dom().contains(peer_id) {
            let before = old(state)@.sessions[peer_id];
            let after = final(state)@.sessions[peer_id];
            &&& after.keeps_all_but_writes(before)
            &&& step matches WriteStep::Refused { report } ==> turns_down(step, request)
            &&& request.mode == GattWriteMode::WithResponse ==> {
                &&& after.unacknowledged_write == before.unacknowledged_write
                &&& step is Acknowledged <==> before.acknowledged_write is None
                &&& step is Refused <==> before.acknowledged_write is Some
                &&& step is Refused ==> after.acknowledged_write == before.acknowledged_write
                &&& step matches WriteStep::Acknowledged { characteristic, bytes } ==> {
                    &&& cloned(request.characteristic, characteristic)
                    &&& after.acknowledged_write matches Some(pending)
                    &&& pending.characteristic == request.characteristic
                    &&& pending.reply == request.reply
                }
            }
            &&& request.mode == GattWriteMode::WithoutResponse ==> {
                &&& after.acknowledged_write == before.acknowledged_write
                &&& step is Refused <==> before.unacknowledged_write is Some
                &&& step is Refused ==> after.unacknowledged_write == before.unacknowledged_write
                &&& step is Unacknowledged <==> before.unacknowledged_write is None && can_send
                &&& step is Unacknowledged ==> after.unacknowledged_write is None
                &&& step is Idle ==> after.unacknowledged_write == Some(request)
            }
        } else {
            &&& final(state)@ == old(state)@
            &&& step matches WriteStep::Refused { report }
            &&& report.result == Err::<(), MacosBleError>(MacosBleError::Closed)
        },
{
    if radio_enabled && old(state)@.sessions.dom().contains(peer_id) {
        old(state)@.sessions[peer_id].law_submitted_write(
            final(state)@.sessions[peer_id],
            request,
            can_send,
            step,
        );
    }
}

/// Once a peripheral can take a write again, the write that waits for it is sent and its writer is
/// told that it is done: never that it failed. It is dropped only where its writer is gone, and
/// where it cannot be sent yet it waits on. Nobody else's session is touched.
pub proof fn law_waiting_write_of_a_peer<P, C, K, D, T, F: Fn(&T) -> bool>(
    state: &mut CentralState<P, C, K, D, T>,
    peer_id: CoreBluetoothPeerId,
    receiver_closed: F,
    can_send: bool,
    step: WriteStep<K, T>,
)
    requires
        call_ensures(
            CentralState::<P, C, K, D, T>::drain_unacknowledged_write::<F>,
            (state, peer_id, receiver_closed, can_send),
            step,
        ),
    ensures
        step is Idle || step is Unacknowledged,
        central_laws::keeps_other_sessions(old(state)@, final(state)@, peer_id),
        final(state)@.registry == old(state)@.registry,
        !old(state)@.sessions.dom().contains(peer_id) ==> final(state)@ == old(state)@
            && step is Idle,
        old(state)@.sessions.dom().contains(peer_id) ==> {
            let before = old(state)@.sessions[peer_id];
            let after = final(state)@.sessions[peer_id];
            &&& final(state)@.sessions.dom().contains(peer_id)
            &&& after.keeps_all_but_writes(before)
            &&& after.acknowledged_write == before.acknowledged_write
            &&& before.unacknowledged_write is None ==> step is Idle
                && after.unacknowledged_write is None
            &&& before.unacknowledged_write matches Some(request) ==> {
                &&& step is Unacknowledged ==> can_send && sends_and_tells(step, request)
                    && after.unacknowledged_write is None
                &&& step is Idle && after.unacknowledged_write is None ==> call_ensures(
                    receiver_closed,
                    (&request.reply,),
                    true,
                )
                &&& after.unacknowledged_write is Some ==> !can_send && after.unacknowledged_write
                    == Some(request)
                &&& can_send && !call_ensures(receiver_closed, (&request.reply,), true)
                    ==> step is Unacknowledged
            }
        },
{
    if old(state)@.sessions.dom().contains(peer_id) {
        old(state)@.sessions[peer_id].law_waiting_write(
            final(state)@.sessions[peer_id],
            receiver_closed,
            can_send,
            step,
        );
    }
}

/// The same of a session by itself: a write that waited is sent as it was submitted, and its writer
/// is told that it is done.
pub proof fn law_waiting_write_of_a_session<C, K, D, T, F: Fn(&T) -> bool>(
    session: &mut CentralPeerSession<C, K, D, T>,
    receiver_closed: F,
    can_send: bool,
    step: WriteStep<K, T>,
)
    requires
        call_ensures(
            CentralPeerSession::<C, K, D, T>::drain_unacknowledged_write::<F>,
            (session, receiver_closed, can_send),
            step,
        ),
    ensures
        step is Idle || step is Unacknowledged,
        final(session).keeps_all_but_writes(*old(session)),
        final(session).acknowledged_write == old(session).acknowledged_write,
        old(session).unacknowledged_write is None ==> step is Idle
            && final(session).unacknowledged_write is None,
        old(session).unacknowledged_write matches Some(request) ==> {
            &&& step is Unacknowledged ==> can_send && sends_and_tells(step, request)
                && final(session).unacknowledged_write is None
            &&& step is Idle && final(session).unacknowledged_write is None ==> call_ensures(
                receiver_closed,
                (&request.reply,),
                true,
            )
            &&& final(session).unacknowledged_write is Some ==> !can_send
                && final(session).unacknowledged_write == Some(request)
            &&& can_send && !call_ensures(receiver_closed, (&request.reply,), true)
                ==> step is Unacknowledged
        },
{
    old(session).law_waiting_write(*final(session), receiver_closed, can_send, step);
}

/// The writer of an acknowledged write hears of it when the peer answers for the characteristic
/// that was written, and hears that it is done exactly where the peer reports no failure. An answer
/// for another characteristic, or another peer, tells nobody anything, and after the answer another
/// write can be issued.
pub proof fn law_acknowledgement<P, C, K: Eq, D, T>(
    state: &mut CentralState<P, C, K, D, T>,
    peer_id: CoreBluetoothPeerId,
    characteristic: &K,
    failed: bool,
    report: Option<WriteReply<T>>,
)
    requires
        call_ensures(
            CentralState::<P, C, K, D, T>::did_write_value,
            (state, peer_id, characteristic, failed),
            report,
        ),
    ensures
        final(state)@.registry == old(state)@.registry,
        central_laws::keeps_other_sessions(old(state)@, final(state)@, peer_id),
        report is None ==> final(state)@ == old(state)@,
        report is Some ==> old(state)@.sessions.dom().contains(peer_id),
        old(state)@.sessions.dom().contains(peer_id) ==> {
            let before = old(state)@.sessions[peer_id];
            let after = final(state)@.sessions[peer_id];
            &&& report is Some <==> (before.acknowledged_write matches Some(pending)
                && pending.characteristic == *characteristic)
            &&& after.keeps_all_but_writes(before)
            &&& after.unacknowledged_write == before.unacknowledged_write
            &&& report matches Some(report) ==> {
                &&& before.acknowledged_write matches Some(pending)
                &&& report.reply == pending.reply
                &&& report.result is Ok <==> !failed
                &&& failed ==> report.result == Err::<(), MacosBleError>(
                    MacosBleError::GattWriteFailed,
                )
                &&& after.acknowledged_write is None
            }
        },
{
}

/// A new session belongs to the dialer that is to be told, has found nothing and writes nothing, and
/// nothing was offered to its owner.
pub proof fn law_new_session<C, K, D, T>(
    address: BleAddress,
    control_tx: mpsc::Sender<C>,
    completion_tx: oneshot::Sender<DialCompletion<K>>,
    data_tx: D,
    session: CentralPeerSession<C, K, D, T>,
)
    requires
        call_ensures(
            CentralPeerSession::<C, K, D, T>::new,
            (address, control_tx, completion_tx, data_tx),
            session,
        ),
    ensures
        session.address == address,
        session.completion_tx == Some(completion_tx),
        session.profile is Discovering,
        session.acknowledged_write is None && session.unacknowledged_write is None,
        session.control_tx.sender() == control_tx && session.control_tx.offers().len() == 0,
        session.data_tx.inbox() == data_tx && session.data_tx.offers().len() == 0,
{
}

/// A dialer that waits is told that its dial failed where the session fails, and why it was turned
/// down where it was; nobody is told where nobody waits.
pub proof fn law_ended_session<C, K, D, T>(
    session: CentralPeerSession<C, K, D, T>,
    rejection: DialRejection,
    failed: Option<CompletionDelivery<K>>,
    rejected: Option<CompletionDelivery<K>>,
)
    requires
        call_ensures(CentralPeerSession::<C, K, D, T>::fail, (session,), failed),
        call_ensures(
            CentralPeerSession::<C, K, D, T>::reject,
            (session, rejection),
            rejected,
        ),
    ensures
        failed is Some <==> session.completion_tx is Some,
        rejected is Some <==> session.completion_tx is Some,
        failed matches Some(told) ==> Some(told.completion_tx) == session.completion_tx
            && told.completion is Failed,
        rejected matches Some(told) ==> Some(told.completion_tx) == session.completion_tx
            && told.completion == DialCompletion::<K>::Rejected(rejection),
{
}

/// A native session is handed over to its dialer when its control characteristic notifies: by that
/// characteristic and the data target that was found, and as a native peer. A session of another
/// profile is left as it is.
pub proof fn law_native_session_is_ready<C, K, D, T>(
    session: &mut CentralPeerSession<C, K, D, T>,
    control: K,
    told: Option<CompletionDelivery<K>>,
)
    requires
        call_ensures(
            CentralPeerSession::<C, K, D, T>::native_ready,
            (session, control),
            told,
        ),
    ensures
        final(session).keeps_all_but_handover(*old(session)),
        told is Some <==> old(session).profile is Native && old(session).completion_tx is Some,
        !(old(session).profile is Native) ==> *final(session) == *old(session),
        old(session).profile matches CentralProfile::Native { data } ==> {
            &&& final(session).profile is Ready && final(session).completion_tx is None
            &&& told matches Some(told) ==> {
                &&& Some(told.completion_tx) == old(session).completion_tx
                &&& told.completion matches DialCompletion::Ready(chars)
                &&& chars.peer_protocol == PeerProtocol::Native
                &&& chars.peer_identity is None
                &&& chars.control == control
                &&& chars.data == data
            }
        },
{
    old(session).law_native_handover(control);
}

/// A Columba session is handed over once both its identity came and its notifications do, in
/// whichever order, under that identity and by the characteristic that takes its writes.
pub proof fn law_columba_session_is_ready<C, K: Clone, D, T>(
    session: &mut CentralPeerSession<C, K, D, T>,
    identity: BleIdentity,
    first: Option<CompletionDelivery<K>>,
    later: &mut CentralPeerSession<C, K, D, T>,
    second: Option<CompletionDelivery<K>>,
    other: &mut CentralPeerSession<C, K, D, T>,
    first_of_other: Option<CompletionDelivery<K>>,
    later_of_other: &mut CentralPeerSession<C, K, D, T>,
    second_of_other: Option<CompletionDelivery<K>>,
)
    requires
        old(session).profile matches CentralProfile::Columba { readiness, .. }
            && readiness is AwaitingIdentityAndSubscription,
        call_ensures(
            CentralPeerSession::<C, K, D, T>::columba_identity,
            (session, identity),
            first,
        ),
        *old(later) == *final(session),
        call_ensures(CentralPeerSession::<C, K, D, T>::columba_subscribed, (later,), second),
        *old(other) == *old(session),
        call_ensures(
            CentralPeerSession::<C, K, D, T>::columba_subscribed,
            (other,),
            first_of_other,
        ),
        *old(later_of_other) == *final(other),
        call_ensures(
            CentralPeerSession::<C, K, D, T>::columba_identity,
            (later_of_other, identity),
            second_of_other,
        ),
    ensures
        first is None && first_of_other is None,
        second is Some <==> old(session).completion_tx is Some,
        second_of_other is Some <==> old(session).completion_tx is Some,
        old(session).profile matches CentralProfile::Columba { write, .. } ==> {
            &&& second matches Some(told) ==> Some(told.completion_tx) == old(
                session).completion_tx && tells_of_columba(told, write, identity)
            &&& second_of_other matches Some(told) ==> Some(told.completion_tx) == old(
                session).completion_tx && tells_of_columba(told, write, identity)
        },
        final(later).profile is Ready && final(later).completion_tx is None,
        *final(later_of_other) == *final(later),
{
    old(session).law_columba_handover(
        *final(session),
        *final(other),
        identity,
        first,
        first_of_other,
    );
}

/// What the owner of a session is offered goes to the stream that it is for, once, and the session
/// says truly whether it was taken.
pub proof fn law_offered_to_the_owner<C, K, D: GattInbox, T>(
    session: &mut CentralPeerSession<C, K, D, T>,
    fragment: Vec<u8>,
    taken: bool,
    other: &mut CentralPeerSession<C, K, D, T>,
    control: C,
    outcome: BoundedIngress<C>,
)
    requires
        call_ensures(
            CentralPeerSession::<C, K, D, T>::enqueue_data,
            (session, fragment),
            taken,
        ),
        call_ensures(
            CentralPeerSession::<C, K, D, T>::enqueue_control,
            (other, control),
            outcome,
        ),
    ensures
        final(session).data_tx.offers() == old(session).data_tx.offers().push(
            Offer { value: fragment@, taken },
        ),
        final(session).control_tx.offers() == old(session).control_tx.offers(),
        final(session).profile == old(session).profile,
        final(session).completion_tx == old(session).completion_tx,
        final(other).control_tx.offers() == old(other).control_tx.offers().push(
            Offer { value: control, taken: outcome is Accepted },
        ),
        final(other).data_tx.offers() == old(other).data_tx.offers(),
        final(other).profile == old(other).profile,
        final(other).completion_tx == old(other).completion_tx,
{
    let fragment = Offer { value: fragment@, taken };
    let message = Offer { value: control, taken: outcome is Accepted };
    assert(old(session).data_tx.offers() + seq![fragment] =~= old(session).data_tx.offers().push(
        fragment,
    ));
    assert(old(session).control_tx.offers() + Seq::empty() =~= old(session).control_tx.offers());
    assert(old(other).control_tx.offers() + seq![message] =~= old(other).control_tx.offers().push(
        message,
    ));
    assert(old(other).data_tx.offers() + Seq::empty() =~= old(other).data_tx.offers());
}

} // verus!
