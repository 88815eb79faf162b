//! One central-role session, from discovery to its handover.

use crate::dial::DialRejection;
use crate::error::MacosBleError;
use crate::ingress;
use crate::ingress::{answer, BoundedIngress, BoundedQueue, FragmentQueue, GattInbox, Offer};
use crate::peer::{BleAddress, BleIdentity, PeerProtocol};
use crate::restored;
use crate::restored::{CallbackModel, RestoredCallback, RestoredCallbackBuffer};
use crate::gatt_write;
use crate::gatt_write::{
    write_admission, GattWriteAdmission, GattWriteMode, GattWriteRequest, GattWriteTarget,
    PendingAcknowledgedWrite,
};
use tokio::sync::{mpsc, oneshot};
use vstd::laws_eq;
use vstd::prelude::*;

verus! {

/// The characteristics by which a dialed peer is reached.
pub struct DialChars<K> {
    pub peer_protocol: PeerProtocol,
    pub peer_identity: Option<BleIdentity>,
    pub control: K,
    pub data: Option<GattWriteTarget<K>>,
}

/// How a dial ended.
pub enum DialCompletion<K> {
    Ready(DialChars<K>),
    Failed,
    Rejected(DialRejection),
}

/// What is still missing of the Columba profile.
pub enum ColumbaReadiness {
    AwaitingIdentityAndSubscription,
    Subscribed,
    Identified(BleIdentity),
}

/// What is known of the peer's profile.
pub enum CentralProfile<K> {
    Discovering,
    Native { data: Option<GattWriteTarget<K>> },
    Columba { write: GattWriteTarget<K>, notify: K, readiness: ColumbaReadiness },
    Ready,
}

/// How a dial ended, and who waits to be told so.
#[verifier::reject_recursive_types(K)]
pub struct CompletionDelivery<K> {
    pub completion_tx: oneshot::Sender<DialCompletion<K>>,
    pub completion: DialCompletion<K>,
}

impl<K> CompletionDelivery<K> {
    /// The outcome was sent to whoever waits.
    pub open spec fn sent(self) -> bool {
        exists|outcome: Result<(), DialCompletion<K>>| #[trigger]
            ingress::told(self.completion_tx, self.completion, outcome)
    }

    /// Tells whoever waits. Where nobody does any more, the outcome is dropped.
    pub fn send(self)
        ensures
            self.sent(),
    {
        let _ = answer(self.completion_tx, self.completion);
    }
}

/// The delivery of an outcome to whoever waits for it, where somebody does.
pub open spec fn delivery<K>(
    completion_tx: Option<oneshot::Sender<DialCompletion<K>>>,
    completion: DialCompletion<K>,
) -> Option<CompletionDelivery<K>> {
    match completion_tx {
        Some(completion_tx) => Some(CompletionDelivery { completion_tx, completion }),
        None => None,
    }
}

/// How a write ended, and where that is reported.
pub struct WriteReply<T> {
    pub reply: T,
    pub result: Result<(), MacosBleError>,
}

/// What a write asks of the peripheral.
pub enum WriteStep<K, T> {
    /// Nothing is to be done now.
    Idle,
    /// Write with a response; the outcome comes later.
    Acknowledged { characteristic: K, bytes: Vec<u8> },
    /// Write without a response, then report.
    Unacknowledged { characteristic: K, bytes: Vec<u8>, report: WriteReply<T> },
    /// Report without writing.
    Refused { report: WriteReply<T> },
}

/// One central-role session. `C` is a control message, `K` a characteristic, `D` the inbox of the
/// peer's fragments and `T` where the outcome of a write is reported.
#[verifier::reject_recursive_types(C)]
#[verifier::reject_recursive_types(K)]
pub struct CentralPeerSession<C, K, D, T> {
    pub address: BleAddress,
    pub control_tx: BoundedQueue<C>,
    pub completion_tx: Option<oneshot::Sender<DialCompletion<K>>>,
    pub data_tx: FragmentQueue<D>,
    pub profile: CentralProfile<K>,
    pub acknowledged_write: Option<PendingAcknowledgedWrite<K, T>>,
    pub unacknowledged_write: Option<GattWriteRequest<K, T>>,
}

impl<C, K, D, T> CentralPeerSession<C, K, D, T> {
    /// The session of a peer whose profile is not known.
    pub fn new(
        address: BleAddress,
        control_tx: mpsc::Sender<C>,
        completion_tx: oneshot::Sender<DialCompletion<K>>,
        data_tx: D,
    ) -> (r: Self)
        ensures
            r == (CentralPeerSession {
                address,
                control_tx: r.control_tx,
                completion_tx: Some(completion_tx),
                data_tx: r.data_tx,
                profile: CentralProfile::<K>::Discovering,
                acknowledged_write: None::<PendingAcknowledgedWrite<K, T>>,
                unacknowledged_write: None::<GattWriteRequest<K, T>>,
            }),
            r.control_tx.sender() == control_tx && r.control_tx.offers().len() == 0,
            r.data_tx.inbox() == data_tx && r.data_tx.offers().len() == 0,
    {
        CentralPeerSession {
            address,
            control_tx: BoundedQueue::new(control_tx),
            completion_tx: Some(completion_tx),
            data_tx: FragmentQueue::new(data_tx),
            profile: CentralProfile::Discovering,
            acknowledged_write: None,
            unacknowledged_write: None,
        }
    }

    /// The session once it was handed over.
    pub open spec fn completed(self) -> Self {
        CentralPeerSession { profile: CentralProfile::<K>::Ready, completion_tx: None, ..self }
    }

    /// The session with another profile.
    pub open spec fn with_profile(self, profile: CentralProfile<K>) -> Self {
        CentralPeerSession { profile, ..self }
    }

    /// The peer offers the native profile.
    pub fn select_native(&mut self, data: Option<GattWriteTarget<K>>)
        ensures
            *final(self) == old(self).with_profile(CentralProfile::Native { data }),
    {
        self.profile = CentralProfile::Native { data };
    }

    /// The peer offers the Columba profile.
    pub fn select_columba(&mut self, write: GattWriteTarget<K>, notify: K)
        ensures
            *final(self) == old(self).with_profile(
                CentralProfile::Columba {
                    write,
                    notify,
                    readiness: ColumbaReadiness::AwaitingIdentityAndSubscription,
                },
            ),
    {
        self.profile = CentralProfile::Columba {
            write,
            notify,
            readiness: ColumbaReadiness::AwaitingIdentityAndSubscription,
        };
    }

    /// The session after its control characteristic notifies, and who is to be told.
    pub open spec fn after_native_ready(self, control: K) -> (Self, Option<CompletionDelivery<K>>) {
        match self.profile {
            CentralProfile::Native { data } => (
                self.completed(),
                delivery(
                    self.completion_tx,
                    DialCompletion::Ready(
                        DialChars {
                            peer_protocol: PeerProtocol::Native,
                            peer_identity: None,
                            control,
                            data,
                        },
                    ),
                ),
            ),
            _ => (self, None),
        }
    }

    /// A native session is handed over once, and only once its control characteristic notifies.
    pub proof fn law_native_is_handed_over_once(self, control: K, again: K)
        ensures
            self.after_native_ready(control).1 is Some ==> self.profile is Native,
            ({
                let (after, _) = self.after_native_ready(control);
                after.after_native_ready(again) == (after, None::<CompletionDelivery<K>>)
            }),
    {
    }

    fn take_profile(&mut self) -> (r: CentralProfile<K>)
        ensures
            r == old(self).profile,
            *final(self) == old(self).with_profile(CentralProfile::Ready),
    {
        let mut profile = CentralProfile::Ready;
        core::mem::swap(&mut profile, &mut self.profile);
        profile
    }

    /// The native control characteristic notifies. A session with the native profile is handed
    /// over; any other one is left as it is.
    pub fn native_ready(&mut self, control: K) -> (r: Option<CompletionDelivery<K>>)
        ensures
            (*final(self), r) == old(self).after_native_ready(control),
    {
        match self.take_profile() {
            CentralProfile::Native { data } => self.complete(
                DialChars { peer_protocol: PeerProtocol::Native, peer_identity: None, control, data },
            ),
            profile => {
                self.profile = profile;
                None
            },
        }
    }

    fn complete(&mut self, chars: DialChars<K>) -> (r: Option<CompletionDelivery<K>>)
        ensures
            *final(self) == old(self).completed(),
            r == delivery(old(self).completion_tx, DialCompletion::Ready(chars)),
    {
        self.profile = CentralProfile::Ready;
        match self.completion_tx.take() {
            Some(completion_tx) => Some(
                CompletionDelivery { completion_tx, completion: DialCompletion::Ready(chars) },
            ),
            None => None,
        }
    }

    /// The session did not come about.
    pub fn fail(self) -> (r: Option<CompletionDelivery<K>>)
        ensures
            r == delivery(self.completion_tx, DialCompletion::Failed),
    {
        match self.completion_tx {
            Some(completion_tx) => Some(
                CompletionDelivery { completion_tx, completion: DialCompletion::Failed },
            ),
            None => None,
        }
    }

    /// The session was turned down.
    pub fn reject(self, rejection: DialRejection) -> (r: Option<CompletionDelivery<K>>)
        ensures
            r == delivery(self.completion_tx, DialCompletion::Rejected(rejection)),
    {
        match self.completion_tx {
            Some(completion_tx) => Some(
                CompletionDelivery {
                    completion_tx,
                    completion: DialCompletion::Rejected(rejection),
                },
            ),
            None => None,
        }
    }

    /// This is the earlier session, to whose owner more was offered since.
    pub open spec fn passes_on(
        self,
        earlier: Self,
        controls: Seq<Offer<C>>,
        fragments: Seq<Offer<Seq<u8>>>,
    ) -> bool {
        &&& self == (CentralPeerSession {
            control_tx: self.control_tx,
            data_tx: self.data_tx,
            ..earlier
        })
        &&& self.control_tx.extends(earlier.control_tx, controls)
        &&& self.data_tx.extends(earlier.data_tx, fragments)
    }

    /// Offers a control message to the owner of the session. A refused one is handed back.
    pub fn enqueue_control(&mut self, control: C) -> (r: BoundedIngress<C>)
        ensures
            ingress::offered(old(self).control_tx.sender(), control, r),
            r.accounts_for(control),
            final(self).passes_on(
                *old(self),
                seq![Offer { value: control, taken: r is Accepted }],
                Seq::empty(),
            ),
    {
        self.control_tx.offer(control)
    }
}

impl<K> CentralProfile<K> {
    /// The identity with which the session is handed over once the peer told it.
    pub open spec fn identity_completes(self, identity: BleIdentity) -> Option<BleIdentity> {
        match self {
            CentralProfile::Columba { readiness: ColumbaReadiness::Subscribed, .. } => Some(
                identity,
            ),
            _ => None,
        }
    }

    /// The profile after the peer told its identity. The latest identity counts.
    pub open spec fn identified(self, identity: BleIdentity) -> Self {
        match self {
            CentralProfile::Columba { write, notify, readiness } => match readiness {
                ColumbaReadiness::Subscribed => CentralProfile::Ready,
                _ => CentralProfile::Columba {
                    write,
                    notify,
                    readiness: ColumbaReadiness::Identified(identity),
                },
            },
            _ => self,
        }
    }

    /// The identity with which the session is handed over once the peer notifies.
    pub open spec fn subscription_completes(self) -> Option<BleIdentity> {
        match self {
            CentralProfile::Columba {
                readiness: ColumbaReadiness::Identified(identity),
                ..
            } => Some(identity),
            _ => None,
        }
    }

    /// The profile after the peer notifies.
    pub open spec fn subscribed(self) -> Self {
        match self {
            CentralProfile::Columba { write, notify, readiness } => match readiness {
                ColumbaReadiness::Identified(_) => CentralProfile::Ready,
                _ => CentralProfile::Columba {
                    write,
                    notify,
                    readiness: ColumbaReadiness::Subscribed,
                },
            },
            _ => self,
        }
    }

    /// A Columba session is handed over exactly when both the identity and the subscription have
    /// come, in either order and with the latest identity.
    pub proof fn law_columba_needs_identity_and_subscription(
        write: GattWriteTarget<K>,
        notify: K,
        first: BleIdentity,
        second: BleIdentity,
    )
        ensures
            ({
                let start = CentralProfile::Columba {
                    write,
                    notify,
                    readiness: ColumbaReadiness::AwaitingIdentityAndSubscription,
                };
                &&& start.identity_completes(first) is None
                &&& start.subscription_completes() is None
                &&& start.identified(first).identity_completes(second) is None
                &&& start.identified(first).subscription_completes() == Some(first)
                &&& start.identified(first).identified(second).subscription_completes() == Some(
                    second,
                )
                &&& start.identified(first).subscribed() == CentralProfile::<K>::Ready
                &&& start.subscribed().subscription_completes() is None
                &&& start.subscribed().identity_completes(first) == Some(first)
                &&& start.subscribed().identified(first) == CentralProfile::<K>::Ready
            }),
    {
    }

    /// A session that was handed over is not handed over again.
    pub proof fn law_ready_is_final(identity: BleIdentity)
        ensures
            CentralProfile::<K>::Ready.identified(identity) == CentralProfile::<K>::Ready,
            CentralProfile::<K>::Ready.subscribed() == CentralProfile::<K>::Ready,
            CentralProfile::<K>::Ready.identity_completes(identity) is None,
            CentralProfile::<K>::Ready.subscription_completes() is None,
    {
    }
}

/// The delivery hands a Columba session over: its RX characteristic serves for control and data.
pub open spec fn hands_over_columba<K: Clone>(
    completion_tx: Option<oneshot::Sender<DialCompletion<K>>>,
    write: GattWriteTarget<K>,
    identity: BleIdentity,
    delivered: Option<CompletionDelivery<K>>,
) -> bool {
    match completion_tx {
        Some(completion_tx) => {
            &&& delivered matches Some(delivered)
            &&& delivered.completion_tx == completion_tx
            &&& delivered.completion matches DialCompletion::Ready(chars)
            &&& chars.peer_protocol == PeerProtocol::Columba
            &&& chars.peer_identity == Some(identity)
            &&& cloned(write.characteristic, chars.control)
            &&& chars.data == Some(write)
        },
        None => delivered is None,
    }
}

impl<C, K: Clone, D, T> CentralPeerSession<C, K, D, T> {
    /// Told the identity, the session becomes `after` and the delivery is to be made.
    pub open spec fn identifies(
        self,
        after: Self,
        identity: BleIdentity,
        delivered: Option<CompletionDelivery<K>>,
    ) -> bool {
        &&& after.profile == self.profile.identified(identity)
        &&& match self.profile.identity_completes(identity) {
            Some(identity) => after == self.completed() && hands_over_columba(
                self.completion_tx,
                self.profile->write,
                identity,
                delivered,
            ),
            None => after == self.with_profile(self.profile.identified(identity))
                && delivered is None,
        }
    }

    /// Once the peer notifies, the session becomes `after` and the delivery is to be made.
    pub open spec fn subscribes(
        self,
        after: Self,
        delivered: Option<CompletionDelivery<K>>,
    ) -> bool {
        &&& after.profile == self.profile.subscribed()
        &&& match self.profile.subscription_completes() {
            Some(identity) => after == self.completed() && hands_over_columba(
                self.completion_tx,
                self.profile->write,
                identity,
                delivered,
            ),
            None => after == self.with_profile(self.profile.subscribed()) && delivered is None,
        }
    }

    fn complete_columba(&mut self, write: GattWriteTarget<K>, identity: BleIdentity) -> (r: Option<
        CompletionDelivery<K>,
    >)
        ensures
            *final(self) == old(self).completed(),
            hands_over_columba(old(self).completion_tx, write, identity, r),
    {
        let control = write.characteristic.clone();
        self.complete(
            DialChars {
                peer_protocol: PeerProtocol::Columba,
                peer_identity: Some(identity),
                control,
                data: Some(write),
            },
        )
    }

    /// The peer told its identity.
    pub fn columba_identity(&mut self, identity: BleIdentity) -> (r: Option<CompletionDelivery<K>>)
        ensures
            old(self).identifies(*final(self), identity, r),
    {
        match self.take_profile() {
            CentralProfile::Columba { write, notify, readiness } => match readiness {
                ColumbaReadiness::Subscribed => self.complete_columba(write, identity),
                _ => {
                    self.profile = CentralProfile::Columba {
                        write,
                        notify,
                        readiness: ColumbaReadiness::Identified(identity),
                    };
                    None
                },
            },
            profile => {
                self.profile = profile;
                None
            },
        }
    }

    /// The peer notifies on its TX characteristic.
    pub fn columba_subscribed(&mut self) -> (r: Option<CompletionDelivery<K>>)
        ensures
            old(self).subscribes(*final(self), r),
    {
        match self.take_profile() {
            CentralProfile::Columba { write, notify, readiness } => match readiness {
                ColumbaReadiness::Identified(identity) => self.complete_columba(write, identity),
                _ => {
                    self.profile = CentralProfile::Columba {
                        write,
                        notify,
                        readiness: ColumbaReadiness::Subscribed,
                    };
                    None
                },
            },
            profile => {
                self.profile = profile;
                None
            },
        }
    }
}

impl<C, K, D: GattInbox, T> CentralPeerSession<C, K, D, T> {
    /// The owner of the session is gone. The control receiver is handshake-only and closes when a
    /// link settles; the data receiver is kept for as long as this role lives.
    pub fn data_receiver_closed(&self) -> (r: bool)
        ensures
            ingress::reports_closed(self.data_tx.inbox(), r),
    {
        self.data_tx.is_closed()
    }

    /// Offers a fragment to the owner of the session. Says whether it was taken.
    pub fn enqueue_data(&mut self, fragment: Vec<u8>) -> (r: bool)
        ensures
            ingress::answers_push(old(self).data_tx.inbox(), fragment, r),
            final(self).passes_on(
                *old(self),
                Seq::empty(),
                seq![Offer { value: fragment@, taken: r }],
            ),
    {
        self.data_tx.offer(fragment)
    }

    /// The callbacks were handed to the owner of the session, which became `after`, or not all of
    /// them. Those of a failed buffer are not handed over at all. Otherwise the control messages go
    /// first and the fragments follow, each once and in the order in which they came, and the first
    /// refusal ends it.
    pub open spec fn hands_over(self, after: Self, callbacks: CallbackModel<C>, all: bool) -> bool {
        let controls = callbacks.controls;
        let fragments = callbacks.data;
        if callbacks.failed {
            !all && after.passes_on(self, Seq::empty(), Seq::empty())
        } else if all {
            after.passes_on(self, ingress::all_taken(controls), ingress::all_taken(fragments))
        } else {
            ||| exists|k: int|
                0 < k <= controls.len() && #[trigger] after.passes_on(
                    self,
                    ingress::last_refused(controls.take(k)),
                    Seq::empty(),
                )
            ||| exists|k: int|
                0 < k <= fragments.len() && #[trigger] after.passes_on(
                    self,
                    ingress::all_taken(controls),
                    ingress::last_refused(fragments.take(k)),
                )
        }
    }

    /// What came for a restored peer reaches the owner of its session in full: where everything was
    /// handed over to a new session, its queues saw exactly the control messages and exactly the
    /// fragments that had come, each once and in their order, and nothing else.
    pub proof fn law_restored_values_reach_the_owner(
        self,
        after: Self,
        budget: nat,
        came: Seq<RestoredCallback<C>>,
    )
        requires
            self.control_tx.offers().len() == 0,
            self.data_tx.offers().len() == 0,
            self.hands_over(after, CallbackModel::empty(budget).offer_all(came), true),
        ensures
            after.control_tx.offers() == ingress::all_taken(restored::controls_of(came)),
            after.data_tx.offers() == ingress::all_taken(restored::fragments_of(came)),
    {
        CallbackModel::law_nothing_is_skipped(budget, came);
        assert(after.control_tx.offers() =~= ingress::all_taken(restored::controls_of(came)));
        assert(after.data_tx.offers() =~= ingress::all_taken(restored::fragments_of(came)));
    }

    /// Hands the callbacks of a restored peer to the owner of the session: the control messages,
    /// then the fragments, each in the order in which they came, until one is refused. Says whether
    /// all of them were taken.
    pub fn restore_callbacks(&mut self, callbacks: RestoredCallbackBuffer<C>) -> (r: bool)
        ensures
            old(self).hands_over(*final(self), callbacks@, r),
    {
        let ghost before = *self;
        if callbacks.failed() {
            assert(before.control_tx.offers() + Seq::empty() =~= before.control_tx.offers());
            assert(before.data_tx.offers() + Seq::empty() =~= before.data_tx.offers());
            return false;
        }
        let ghost held = callbacks@;
        let (mut controls, mut data) = callbacks.into_parts();
        let ghost messages = controls@;
        let ghost fragments = data@;
        let ghost mut sent: int = 0;
        proof {
            assert(before.control_tx.offers() + ingress::all_taken(messages.take(0))
                =~= before.control_tx.offers());
            assert(before.data_tx.offers() + Seq::empty() =~= before.data_tx.offers());
        }
        while controls.len() > 0
            invariant
                before == *old(self),
                held == callbacks@,
                !held.failed,
                held.controls == messages,
                0 <= sent <= messages.len(),
                controls@ == messages.skip(sent),
                self.passes_on(before, ingress::all_taken(messages.take(sent)), Seq::empty()),
            decreases controls@.len(),
        {
            if let Some(control) = controls.pop_front() {
                assert(control == messages[sent]);
                let ghost until = messages.take(sent + 1);
                proof {
                    assert(until.drop_last() =~= messages.take(sent));
                    assert(until.last() == control);
                    assert(ingress::all_taken(until) =~= ingress::all_taken(
                        messages.take(sent),
                    ).push(Offer { value: control, taken: true }));
                    sent = sent + 1;
                    assert(controls@ =~= messages.skip(sent));
                }
                let taken = match self.enqueue_control(control) {
                    BoundedIngress::Accepted => true,
                    _ => false,
                };
                proof {
                    let more = ingress::all_taken(until.drop_last());
                    let offer = Offer { value: control, taken };
                    assert(before.control_tx.offers() + more + seq![offer]
                        =~= before.control_tx.offers() + more.push(offer));
                    assert(before.data_tx.offers() + Seq::empty() + Seq::empty()
                        =~= before.data_tx.offers() + Seq::empty());
                }
                if !taken {
                    assert(self.passes_on(
                        before,
                        ingress::last_refused(held.controls.take(sent)),
                        Seq::empty(),
                    ));
                    return false;
                }
            }
        }
        let ghost mut done: int = 0;
        proof {
            assert(messages.take(sent) =~= messages);
            assert(ingress::all_taken(held.data.take(0)) =~= Seq::empty());
        }
        while data.len() > 0
            invariant
                before == *old(self),
                held == callbacks@,
                !held.failed,
                held.data == restored::fragments_view(fragments),
                0 <= done <= fragments.len(),
                data@ == fragments.skip(done),
                self.passes_on(
                    before,
                    ingress::all_taken(held.controls),
                    ingress::all_taken(held.data.take(done)),
                ),
            decreases data@.len(),
        {
            if let Some(fragment) = data.pop_front() {
                let ghost bytes = fragment@;
                let ghost until = held.data.take(done + 1);
                proof {
                    assert(fragment == fragments[done]);
                    assert(held.data[done] == bytes);
                    assert(until.drop_last() =~= held.data.take(done));
                    assert(until.last() == bytes);
                    assert(ingress::all_taken(until) =~= ingress::all_taken(
                        held.data.take(done),
                    ).push(Offer { value: bytes, taken: true }));
                    done = done + 1;
                    assert(data@ =~= fragments.skip(done));
                }
                let taken = self.enqueue_data(fragment);
                proof {
                    let more = ingress::all_taken(until.drop_last());
                    let offer = Offer { value: bytes, taken };
                    assert(before.data_tx.offers() + more + seq![offer]
                        =~= before.data_tx.offers() + more.push(offer));
                    let first = ingress::all_taken(held.controls);
                    assert(before.control_tx.offers() + first + Seq::empty()
                        =~= before.control_tx.offers() + first);
                }
                if !taken {
                    assert(self.passes_on(
                        before,
                        ingress::all_taken(held.controls),
                        ingress::last_refused(held.data.take(done)),
                    ));
                    return false;
                }
            }
        }
        assert(held.data.take(done) =~= held.data);
        true
    }
}

impl<C, K, D, T> CentralPeerSession<C, K, D, T> {
    /// Remembers an issued write until the peer acknowledges it. One is outstanding at a time.
    pub fn begin_acknowledged_write(&mut self, pending: PendingAcknowledgedWrite<K, T>) -> (r:
        Result<(), PendingAcknowledgedWrite<K, T>>)
        ensures
            match old(self).acknowledged_write {
                Some(_) => *final(self) == *old(self) && r == Err::<
                    (),
                    PendingAcknowledgedWrite<K, T>,
                >(pending),
                None => *final(self) == (CentralPeerSession {
                    acknowledged_write: Some(pending),
                    ..*old(self)
                }) && r is Ok,
            },
    {
        if self.acknowledged_write.is_some() {
            return Err(pending);
        }
        self.acknowledged_write = Some(pending);
        Ok(())
    }

    /// Keeps a write until the peripheral can take it. One waits at a time.
    pub fn hold_unacknowledged_write(&mut self, request: GattWriteRequest<K, T>) -> (r: Result<
        (),
        GattWriteRequest<K, T>,
    >)
        ensures
            match old(self).unacknowledged_write {
                Some(_) => *final(self) == *old(self) && r == Err::<(), GattWriteRequest<K, T>>(
                    request,
                ),
                None => *final(self) == (CentralPeerSession {
                    unacknowledged_write: Some(request),
                    ..*old(self)
                }) && r is Ok,
            },
    {
        if self.unacknowledged_write.is_some() {
            return Err(request);
        }
        self.unacknowledged_write = Some(request);
        Ok(())
    }

    /// The peer answered a write to the characteristic. The report of the outstanding write is
    /// handed out where the answer is for its characteristic.
    pub fn finish_acknowledged_write(
        &mut self,
        characteristic: &K,
        result: Result<(), MacosBleError>,
    ) -> (r: Option<WriteReply<T>>) where K: Eq
        requires
            laws_eq::obeys_concrete_eq::<K>(),
        ensures
            match old(self).acknowledged_write {
                Some(pending) if pending.characteristic == *characteristic => {
                    &&& *final(self) == (CentralPeerSession {
                        acknowledged_write: None::<PendingAcknowledgedWrite<K, T>>,
                        ..*old(self)
                    })
                    &&& r == Some(WriteReply { reply: pending.reply, result })
                },
                _ => *final(self) == *old(self) && r is None,
            },
    {
        reveal(laws_eq::obeys_concrete_eq);
        match self.acknowledged_write.take() {
            Some(pending) => {
                if pending.characteristic == *characteristic {
                    Some(WriteReply { reply: pending.reply, result })
                } else {
                    self.acknowledged_write = Some(pending);
                    None
                }
            },
            None => None,
        }
    }

    /// Given the write, the session becomes `after` and the step is to be taken.
    pub open spec fn submits(
        self,
        after: Self,
        request: GattWriteRequest<K, T>,
        can_send_without_response: bool,
        step: WriteStep<K, T>,
    ) -> bool where K: Clone {
        match gatt_write::admission(
            request.mode,
            self.acknowledged_write is Some,
            self.unacknowledged_write is Some,
            can_send_without_response,
        ) {
            GattWriteAdmission::Issue => match request.mode {
                GattWriteMode::WithResponse => {
                    &&& step matches WriteStep::Acknowledged { characteristic, bytes }
                    &&& cloned(request.characteristic, characteristic)
                    &&& bytes == request.bytes
                    &&& after == (CentralPeerSession {
                        acknowledged_write: Some(
                            PendingAcknowledgedWrite {
                                characteristic: request.characteristic,
                                reply: request.reply,
                            },
                        ),
                        ..self
                    })
                },
                GattWriteMode::WithoutResponse => {
                    &&& step == unacknowledged(request)
                    &&& after == self
                },
            },
            GattWriteAdmission::WaitForCapacity => {
                &&& step == WriteStep::<K, T>::Idle
                &&& after == (CentralPeerSession {
                    unacknowledged_write: Some(request),
                    ..self
                })
            },
            GattWriteAdmission::Busy => {
                &&& step == WriteStep::<K, T>::Refused {
                    report: WriteReply {
                        reply: request.reply,
                        result: Err(MacosBleError::QueueFull),
                    },
                }
                &&& after == self
            },
        }
    }

    /// Once writes can go out again, the session becomes `after` and the step is to be taken.
    pub open spec fn drains<F: Fn(&T) -> bool>(
        self,
        after: Self,
        receiver_closed: F,
        can_send_without_response: bool,
        step: WriteStep<K, T>,
    ) -> bool {
        match self.unacknowledged_write {
            Some(request) => {
                let emptied = CentralPeerSession {
                    unacknowledged_write: None::<GattWriteRequest<K, T>>,
                    ..self
                };
                ||| call_ensures(receiver_closed, (&request.reply,), true) && step == WriteStep::<
                    K,
                    T,
                >::Idle && after == emptied
                ||| call_ensures(receiver_closed, (&request.reply,), false)
                    && can_send_without_response && step == unacknowledged(request) && after
                    == emptied
                ||| call_ensures(receiver_closed, (&request.reply,), false)
                    && !can_send_without_response && step == WriteStep::<K, T>::Idle
                    && after == self
            },
            None => step == WriteStep::<K, T>::Idle && after == self,
        }
    }

    /// Writes of one mode follow one another: while an acknowledged write is outstanding, and while
    /// an unacknowledged one waits for capacity, the next of its kind is refused and nothing
    /// changes.
    pub proof fn law_writes_are_serialized(
        self,
        between: Self,
        after: Self,
        first: GattWriteRequest<K, T>,
        second: GattWriteRequest<K, T>,
        can_send_first: bool,
        can_send_second: bool,
        first_step: WriteStep<K, T>,
        second_step: WriteStep<K, T>,
    ) where K: Clone
        requires
            first.mode == second.mode,
            self.submits(between, first, can_send_first, first_step),
            between.submits(after, second, can_send_second, second_step),
            first_step is Acknowledged || first_step is Idle,
        ensures
            after == between,
            second_step == (WriteStep::<K, T>::Refused {
                report: WriteReply { reply: second.reply, result: Err(MacosBleError::QueueFull) },
            }),
    {
    }

    /// What a write asks of the peripheral.
    pub fn submit_write(
        &mut self,
        request: GattWriteRequest<K, T>,
        can_send_without_response: bool,
    ) -> (r: WriteStep<K, T>) where K: Clone
        ensures
            old(self).submits(*final(self), request, can_send_without_response, r),
    {
        match write_admission(
            request.mode,
            self.acknowledged_write.is_some(),
            self.unacknowledged_write.is_some(),
            can_send_without_response,
        ) {
            GattWriteAdmission::Issue => match request.mode {
                GattWriteMode::WithResponse => {
                    let characteristic = request.characteristic.clone();
                    let pending = PendingAcknowledgedWrite {
                        characteristic: request.characteristic,
                        reply: request.reply,
                    };
                    match self.begin_acknowledged_write(pending) {
                        Ok(()) => WriteStep::Acknowledged { characteristic, bytes: request.bytes },
                        Err(pending) => WriteStep::Refused {
                            report: WriteReply {
                                reply: pending.reply,
                                result: Err(MacosBleError::QueueFull),
                            },
                        },
                    }
                },
                GattWriteMode::WithoutResponse => issue_unacknowledged_write(request),
            },
            GattWriteAdmission::WaitForCapacity => match self.hold_unacknowledged_write(request) {
                Ok(()) => WriteStep::Idle,
                Err(request) => WriteStep::Refused {
                    report: WriteReply {
                        reply: request.reply,
                        result: Err(MacosBleError::QueueFull),
                    },
                },
            },
            GattWriteAdmission::Busy => WriteStep::Refused {
                report: WriteReply { reply: request.reply, result: Err(MacosBleError::QueueFull) },
            },
        }
    }

    /// The peripheral may take a write again: the one that waits is issued, kept where the
    /// peripheral cannot take it after all, and dropped where nobody waits for it.
    pub fn drain_unacknowledged_write<F: Fn(&T) -> bool>(
        &mut self,
        receiver_closed: F,
        can_send_without_response: bool,
    ) -> (r: WriteStep<K, T>)
        requires
            forall|reply: &T| call_requires(receiver_closed, (reply,)),
        ensures
            old(self).drains(*final(self), receiver_closed, can_send_without_response, r),
    {
        let request = match self.unacknowledged_write.take() {
            Some(request) => request,
            None => {
                return WriteStep::Idle;
            },
        };
        if receiver_closed(&request.reply) {
            return WriteStep::Idle;
        }
        if !can_send_without_response {
            return match self.hold_unacknowledged_write(request) {
                Ok(()) => WriteStep::Idle,
                Err(request) => WriteStep::Refused {
                    report: WriteReply {
                        reply: request.reply,
                        result: Err(MacosBleError::QueueFull),
                    },
                },
            };
        }
        issue_unacknowledged_write(request)
    }
}

/// A write without a response: it counts as done once it was issued.
pub open spec fn unacknowledged<K, T>(request: GattWriteRequest<K, T>) -> WriteStep<K, T> {
    WriteStep::Unacknowledged {
        characteristic: request.characteristic,
        bytes: request.bytes,
        report: WriteReply { reply: request.reply, result: Ok(()) },
    }
}

/// Issues a write without a response.
pub fn issue_unacknowledged_write<K, T>(request: GattWriteRequest<K, T>) -> (r: WriteStep<K, T>)
    ensures
        r == unacknowledged(request),
{
    WriteStep::Unacknowledged {
        characteristic: request.characteristic,
        bytes: request.bytes,
        report: WriteReply { reply: request.reply, result: Ok(()) },
    }
}

} // verus!
