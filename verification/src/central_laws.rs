//! What holds of the central role across its events.

use crate::central::{CentralModel, CentralState, Finished, Reaped};
use crate::central_events;
use crate::central_events::{ConnectStep, DiscoverAction, Discovery, EventStep, ProfileStep};
use crate::discovery;
use crate::discovery::GuardModel;
use crate::error::MacosBleError;
use crate::gatt_write::{GattWriteMode, GattWriteTarget};
use crate::handoff_laws;
use crate::ingress::{GattInbox, Offer};
use crate::peer::{BleIdentity, CoreBluetoothPeerId, PeerProtocol};
use crate::profile::{CharacteristicRole, DiscoveredProfile};
use crate::registry_model::RegistryModel;
use crate::restored::CallbackModel;
use crate::search;
use crate::session::{CentralProfile, ColumbaReadiness, CompletionDelivery, DialCompletion};
use vstd::prelude::*;

verus! {

/// Nothing is registered of the peer any more, and everything else is as it was.
pub open spec fn unregisters<P, C>(
    before: RegistryModel<P, C>,
    after: RegistryModel<P, C>,
    peer_id: CoreBluetoothPeerId,
) -> bool {
    &&& forall|i: int|
        0 <= i < after.peripherals.len() ==> (#[trigger] after.peripherals[i]).peer_id != peer_id
            && before.peripherals.contains(after.peripherals[i])
    &&& forall|i: int|
        0 <= i < before.peripherals.len() && (#[trigger] before.peripherals[i]).peer_id != peer_id
            ==> after.peripherals.contains(before.peripherals[i])
    &&& forall|k: int|
        0 <= k < after.restored.len() ==> (#[trigger] after.restored[k]).peer_id != peer_id
            && before.restored.contains(after.restored[k])
    &&& forall|k: int|
        0 <= k < before.restored.len() && (#[trigger] before.restored[k]).peer_id != peer_id
            ==> after.restored.contains(before.restored[k])
}

/// The handle is the one that is registered for the peer, where one is.
pub open spec fn is_handle<P, C>(
    registry: RegistryModel<P, C>,
    peer_id: CoreBluetoothPeerId,
    handle: Option<P>,
) -> bool {
    match handle {
        Some(handle) => exists|i: int|
            0 <= i < registry.peripherals.len() && (#[trigger] registry.peripherals[i]).peer_id
                == peer_id && registry.peripherals[i].peripheral == handle,
        None => forall|i: int|
            0 <= i < registry.peripherals.len() ==> (#[trigger] registry.peripherals[i]).peer_id
                != peer_id,
    }
}

/// Whoever still waits for the outcome of the peer's dial is told that it failed.
pub open spec fn tells_failure<P, C, K, D, T>(
    state: CentralModel<P, C, K, D, T>,
    peer_id: CoreBluetoothPeerId,
    told: Option<CompletionDelivery<K>>,
) -> bool {
    &&& told is Some <==> state.sessions.dom().contains(peer_id)
        && state.sessions[peer_id].completion_tx is Some
    &&& told matches Some(told) ==> Some(told.completion_tx)
        == state.sessions[peer_id].completion_tx && told.completion is Failed
}

/// The peer's session is gone and every other one is as it was.
pub open spec fn drops_session<P, C, K, D, T>(
    before: CentralModel<P, C, K, D, T>,
    after: CentralModel<P, C, K, D, T>,
    peer_id: CoreBluetoothPeerId,
) -> bool {
    &&& !after.sessions.dom().contains(peer_id)
    &&& keeps_other_sessions(before, after, peer_id)
}

/// Every other peer has the session that it had.
pub open spec fn keeps_other_sessions<P, C, K, D, T>(
    before: CentralModel<P, C, K, D, T>,
    after: CentralModel<P, C, K, D, T>,
    peer_id: CoreBluetoothPeerId,
) -> bool {
    forall|other: CoreBluetoothPeerId|
        #![trigger after.sessions.dom().contains(other)]
        #![trigger before.sessions.dom().contains(other)]
        other != peer_id ==> {
            &&& after.sessions.dom().contains(other) <==> before.sessions.dom().contains(other)
            &&& after.sessions[other] == before.sessions[other]
        }
}

/// The peer is gone for good: its connection is cancelled, its dialer is told, and nothing is left
/// of it.
pub open spec fn is_lost<P, C, K, D, T>(
    before: CentralModel<P, C, K, D, T>,
    after: CentralModel<P, C, K, D, T>,
    peer_id: CoreBluetoothPeerId,
    finished: Finished<P, K>,
) -> bool {
    &&& is_handle(before.registry, peer_id, finished.peripheral)
    &&& tells_failure(before, peer_id, finished.delivery)
    &&& unregisters(before.registry, after.registry, peer_id)
    &&& drops_session(before, after, peer_id)
}

proof fn lemma_finished<P, C, K, D, T>(
    state: CentralModel<P, C, K, D, T>,
    peer_id: CoreBluetoothPeerId,
)
    requires
        state.registry.wf(),
    ensures
        unregisters(state.registry, state.registry.removed(peer_id), peer_id),
        drops_session(state, state.finished(peer_id), peer_id),
        is_handle(state.registry, peer_id, state.registry.handle(peer_id)),
        tells_failure(state, peer_id, state.failure(peer_id)),
{
    state.registry.law_removal_is_exact(peer_id);
}

/// A characteristic of a restored peer has a new value before its session begins: a fragment, on
/// whichever characteristic it comes, and a control message are buffered behind the earlier ones,
/// or the handoff has failed. Nobody else notices.
pub proof fn law_restored_value_waits<
    P,
    C,
    K: Clone,
    D: GattInbox,
    T,
    F: Fn(&Vec<u8>) -> Option<C>,
>(
    state: &mut CentralState<P, C, K, D, T>,
    peer_id: CoreBluetoothPeerId,
    role: Option<CharacteristicRole>,
    value: Vec<u8>,
    decode: F,
    read: spec_fn(Seq<u8>) -> Option<C>,
    step: EventStep<P, K>,
    callbacks: CallbackModel<C>,
)
    requires
        old(state).wf(),
        call_ensures(
            CentralState::<P, C, K, D, T>::did_update_value::<F>,
            (state, peer_id, false, role, Some(value), decode),
            step,
        ),
        handoff_laws::buffers(old(state)@.registry, peer_id, callbacks),
        handoff_laws::decodes(decode, read),
    ensures
        role == Some(CharacteristicRole::Data) || role == Some(CharacteristicRole::ColumbaTx)
            ==> exists|now: CallbackModel<C>| #[trigger]
            handoff_laws::buffers(final(state)@.registry, peer_id, now) && (now.failed || (now.data
                == callbacks.data.push(value@) && now.controls == callbacks.controls)),
        role == Some(CharacteristicRole::Control) || role == Some(CharacteristicRole::ColumbaRx)
            || role is None ==> exists|now: CallbackModel<C>| #[trigger]
            handoff_laws::buffers(final(state)@.registry, peer_id, now) && match read(value@) {
                Some(control) => now.failed || (now.controls == callbacks.controls.push(control)
                    && now.data == callbacks.data),
                None => now == callbacks,
            },
        role != Some(CharacteristicRole::ColumbaIdentity) ==> {
            &&& step == EventStep::<P, K>::Stays(None)
            &&& final(state)@.sessions == old(state)@.sessions
            &&& final(state)@.registry.peripherals == old(state)@.registry.peripherals
        },
{
    state.registry.lemma_wf();
    if role != Some(CharacteristicRole::ColumbaIdentity) {
        handoff_laws::law_restored_values_are_buffered(
            old(state)@,
            final(state)@,
            step,
            peer_id,
            role,
            value,
            decode,
            read,
            callbacks,
        );
    }
}

/// The two logs differ by one value that was taken.
pub open spec fn took_one_more<A>(before: Seq<Offer<A>>, after: Seq<Offer<A>>, value: A) -> bool {
    &&& after.len() == before.len() + 1
    &&& after.drop_last() == before
    &&& after.last().value == value
    &&& after.last().taken
}

/// A value of a peer that has its session goes to the stream that its characteristic carries: a
/// fragment to the fragments and a control message to the control messages, once, and to no other.
/// Where the owner does not take it, the peer is lost. Another peer's session never sees it.
pub proof fn law_value_reaches_its_stream<
    P,
    C,
    K: Clone,
    D: GattInbox,
    T,
    F: Fn(&Vec<u8>) -> Option<C>,
>(
    state: &mut CentralState<P, C, K, D, T>,
    peer_id: CoreBluetoothPeerId,
    role: Option<CharacteristicRole>,
    value: Vec<u8>,
    decode: F,
    read: spec_fn(Seq<u8>) -> Option<C>,
    step: EventStep<P, K>,
)
    requires
        old(state).wf(),
        call_ensures(
            CentralState::<P, C, K, D, T>::did_update_value::<F>,
            (state, peer_id, false, role, Some(value), decode),
            step,
        ),
        role != Some(CharacteristicRole::ColumbaIdentity),
        old(state)@.sessions.dom().contains(peer_id),
        forall|k: int|
            0 <= k < old(state)@.registry.restored.len() ==> (
            #[trigger] old(state)@.registry.restored[k]).peer_id != peer_id,
        handoff_laws::decodes(decode, read),
    ensures
        keeps_other_sessions(old(state)@, final(state)@, peer_id),
        match step {
            EventStep::Gone(finished) => is_lost(
                old(state)@,
                final(state)@,
                peer_id,
                finished,
            ) && (handoff_laws::carries_control(role) ==> read(value@) is Some),
            EventStep::Stays(told) => {
                let before = old(state)@.sessions[peer_id];
                let after = final(state)@.sessions[peer_id];
                &&& told is None
                &&& final(state)@.registry == old(state)@.registry
                &&& final(state)@.sessions.dom().contains(peer_id)
                &&& after.profile == before.profile
                &&& after.completion_tx == before.completion_tx
                &&& after.acknowledged_write == before.acknowledged_write
                &&& after.unacknowledged_write == before.unacknowledged_write
                &&& handoff_laws::carries_fragments(role) ==> {
                    &&& took_one_more(before.data_tx.offers(), after.data_tx.offers(), value@)
                    &&& after.control_tx.offers() == before.control_tx.offers()
                }
                &&& handoff_laws::carries_control(role) ==> {
                    &&& after.data_tx.offers() == before.data_tx.offers()
                    &&& match read(value@) {
                        Some(control) => took_one_more(
                            before.control_tx.offers(),
                            after.control_tx.offers(),
                            control,
                        ),
                        None => after == before,
                    }
                }
            },
        },
{
    let before = old(state)@;
    let after = final(state)@;
    state.registry.lemma_wf();
    before.registry.lemma_not_found(peer_id);
    lemma_finished(before, peer_id);
    if step is Stays {
        let was = before.sessions[peer_id];
        let is = after.sessions[peer_id];
        assert(was.data_tx.offers() + Seq::empty() =~= was.data_tx.offers());
        assert(was.control_tx.offers() + Seq::empty() =~= was.control_tx.offers());
        assert(handoff_laws::carries_fragments(role) ==> is.data_tx.offers().drop_last()
            =~= was.data_tx.offers());
        if handoff_laws::carries_control(role) {
            if let Some(control) = read(value@) {
                assert(is.control_tx.offers().drop_last() =~= was.control_tx.offers());
            }
        }
    }
}

/// A value of a peer that is neither restored nor has a session is dropped, whatever it carries.
pub proof fn law_stray_value_is_dropped<
    P,
    C,
    K: Clone,
    D: GattInbox,
    T,
    F: Fn(&Vec<u8>) -> Option<C>,
>(
    state: &mut CentralState<P, C, K, D, T>,
    peer_id: CoreBluetoothPeerId,
    role: Option<CharacteristicRole>,
    value: Vec<u8>,
    decode: F,
    step: EventStep<P, K>,
)
    requires
        old(state).wf(),
        call_ensures(
            CentralState::<P, C, K, D, T>::did_update_value::<F>,
            (state, peer_id, false, role, Some(value), decode),
            step,
        ),
        role != Some(CharacteristicRole::ColumbaIdentity),
        !old(state)@.sessions.dom().contains(peer_id),
        forall|k: int|
            0 <= k < old(state)@.registry.restored.len() ==> (
            #[trigger] old(state)@.registry.restored[k]).peer_id != peer_id,
    ensures
        step == EventStep::<P, K>::Stays(None),
        final(state)@ == old(state)@,
{
    old(state)@.registry.lemma_not_found(peer_id);
}

/// The identity of a Columba peer is exactly the sixteen bytes that it told: anything else loses
/// the peer. A subscribed session is handed over under it, a session that waits for both remembers
/// it, and any other one is left alone.
pub proof fn law_identity_is_what_was_told<
    P,
    C,
    K: Clone,
    D: GattInbox,
    T,
    F: Fn(&Vec<u8>) -> Option<C>,
>(
    state: &mut CentralState<P, C, K, D, T>,
    peer_id: CoreBluetoothPeerId,
    value: Vec<u8>,
    decode: F,
    step: EventStep<P, K>,
)
    requires
        old(state).wf(),
        call_ensures(
            CentralState::<P, C, K, D, T>::did_update_value::<F>,
            (
                state,
                peer_id,
                false,
                Some(CharacteristicRole::ColumbaIdentity),
                Some(value),
                decode,
            ),
            step,
        ),
    ensures
        keeps_other_sessions(old(state)@, final(state)@, peer_id),
        match step {
            EventStep::Gone(finished) => value@.len() != 16 && is_lost(
                old(state)@,
                final(state)@,
                peer_id,
                finished,
            ),
            EventStep::Stays(told) => {
                let before = old(state)@.sessions[peer_id];
                let after = final(state)@.sessions[peer_id];
                &&& value@.len() == 16
                &&& final(state)@.registry == old(state)@.registry
                &&& old(state)@.sessions.dom().contains(peer_id) <==> final(
                    state)@.sessions.dom().contains(peer_id)
                &&& after.data_tx == before.data_tx && after.control_tx == before.control_tx
                &&& told matches Some(told) ==> {
                    &&& old(state)@.sessions.dom().contains(peer_id)
                    &&& before.profile matches CentralProfile::Columba { readiness, .. }
                    &&& readiness is Subscribed
                    &&& Some(told.completion_tx) == before.completion_tx
                    &&& told.completion matches DialCompletion::Ready(chars)
                    &&& chars.peer_identity matches Some(identity)
                    &&& identity.0@ == value@
                }
                &&& old(state)@.sessions.dom().contains(peer_id) && (before.profile matches
                    CentralProfile::Columba { readiness, .. } && !(readiness is Subscribed)) ==> {
                    &&& after.profile matches CentralProfile::Columba { readiness, .. }
                    &&& readiness matches ColumbaReadiness::Identified(identity)
                    &&& identity.0@ == value@
                }
            },
        },
{
    let before = old(state)@;
    let after = final(state)@;
    state.registry.lemma_wf();
    lemma_finished(before, peer_id);
    if value@.len() == 16 && before.sessions.dom().contains(peer_id) {
        let told = step->Stays_0;
        let identity = choose|identity: BleIdentity|
            identity.0@ == value@ && #[trigger] before.sessions[peer_id].identifies(
                after.sessions[peer_id],
                identity,
                told,
            );
        assert(before.sessions[peer_id].identifies(after.sessions[peer_id], identity, told));
    }
}

/// An event that failed loses its peer, whatever characteristic it was about.
pub proof fn law_failed_value_loses_the_peer<
    P,
    C,
    K: Clone,
    D: GattInbox,
    T,
    F: Fn(&Vec<u8>) -> Option<C>,
>(
    state: &mut CentralState<P, C, K, D, T>,
    peer_id: CoreBluetoothPeerId,
    role: Option<CharacteristicRole>,
    value: Option<Vec<u8>>,
    decode: F,
    step: EventStep<P, K>,
)
    requires
        old(state).wf(),
        call_ensures(
            CentralState::<P, C, K, D, T>::did_update_value::<F>,
            (state, peer_id, true, role, value, decode),
            step,
        ),
    ensures
        step matches EventStep::Gone(finished) && is_lost(
            old(state)@,
            final(state)@,
            peer_id,
            finished,
        ),
{
    state.registry.lemma_wf();
    lemma_finished(old(state)@, peer_id);
}

/// `discover` plans every characteristic in the mode that it is asked for.
pub open spec fn plans_as_asked<
    K,
    F: Fn(&K, GattWriteMode) -> Result<GattWriteTarget<K>, MacosBleError>,
>(discover: F) -> bool {
    forall|k: &K, mode: GattWriteMode, target: GattWriteTarget<K>| #[trigger]
        call_ensures(discover, (k, mode), Ok::<GattWriteTarget<K>, MacosBleError>(target))
            ==> target.characteristic == *k && target.plan.planned_mode() == mode
}

/// A native session writes its fragments to the data characteristic with a response, where the peer
/// has one, and a Columba session writes to its RX characteristic without one. The native profile
/// comes first, the Columba profile needs all three of its characteristics, and the characteristics
/// to subscribe to are the peer's own.
pub proof fn law_profile_and_write_mode<
    P,
    C,
    K: Clone,
    D,
    T,
    F: Fn(&K, GattWriteMode) -> Result<GattWriteTarget<K>, MacosBleError>,
>(
    state: &mut CentralState<P, C, K, D, T>,
    peer_id: CoreBluetoothPeerId,
    found: DiscoveredProfile<K>,
    discover: F,
    step: ProfileStep<P, K>,
)
    requires
        old(state).wf(),
        call_ensures(
            CentralState::<P, C, K, D, T>::did_discover_characteristics::<F>,
            (state, peer_id, Some(found), discover),
            step,
        ),
        plans_as_asked(discover),
    ensures
        keeps_other_sessions(old(state)@, final(state)@, peer_id),
        step is SubscribeNative ==> {
            let before = old(state)@.sessions[peer_id];
            let after = final(state)@.sessions[peer_id];
            &&& found.control == Some(step->SubscribeNative_control)
            &&& found.data == step->SubscribeNative_data
            &&& old(state)@.sessions.dom().contains(peer_id)
            &&& final(state)@.sessions.dom().contains(peer_id)
            &&& after.profile matches CentralProfile::Native { data: target }
            &&& target is Some <==> found.data is Some
            &&& target matches Some(target) ==> {
                &&& found.data == Some(target.characteristic)
                &&& target.plan.planned_mode() is WithResponse
            }
            &&& after.completion_tx == before.completion_tx
            &&& after.data_tx == before.data_tx && after.control_tx == before.control_tx
        },
        step is SubscribeColumba ==> {
            let before = old(state)@.sessions[peer_id];
            let after = final(state)@.sessions[peer_id];
            &&& found.control is None
            &&& found.columba_identity == Some(step->identity)
            &&& found.columba_tx matches Some(tx) && cloned(tx, step->tx)
            &&& old(state)@.sessions.dom().contains(peer_id)
            &&& final(state)@.sessions.dom().contains(peer_id)
            &&& after.profile matches CentralProfile::Columba { write, notify, readiness }
            &&& found.columba_rx == Some(write.characteristic)
            &&& write.plan.planned_mode() is WithoutResponse
            &&& found.columba_tx == Some(notify)
            &&& readiness is AwaitingIdentityAndSubscription
            &&& after.completion_tx == before.completion_tx
            &&& after.data_tx == before.data_tx && after.control_tx == before.control_tx
        },
        step is Ignore ==> final(state)@ == old(state)@ && !old(state)@.sessions.dom().contains(
            peer_id,
        ),
        step matches ProfileStep::Gone(finished) ==> is_lost(
            old(state)@,
            final(state)@,
            peer_id,
            finished,
        ),
        !(step is Gone) ==> final(state)@.registry == old(state)@.registry,
{
    state.registry.lemma_wf();
    lemma_finished(old(state)@, peer_id);
}

/// A peer is turned away only for what its own profile lacks. A native peer without a data
/// characteristic never is, and one whose data characteristic can be written to with a response
/// never is either, whatever is said of writes without one. A Columba peer with all three
/// characteristics is turned away only where its RX characteristic cannot be written to without a
/// response.
pub proof fn law_usable_peers_are_not_turned_away<
    P,
    C,
    K: Clone,
    D,
    T,
    F: Fn(&K, GattWriteMode) -> Result<GattWriteTarget<K>, MacosBleError>,
>(
    state: &mut CentralState<P, C, K, D, T>,
    peer_id: CoreBluetoothPeerId,
    found: DiscoveredProfile<K>,
    discover: F,
    step: ProfileStep<P, K>,
)
    requires
        old(state).wf(),
        call_ensures(
            CentralState::<P, C, K, D, T>::did_discover_characteristics::<F>,
            (state, peer_id, Some(found), discover),
            step,
        ),
        step is Gone,
    ensures
        found.control is Some ==> {
            &&& found.data matches Some(data)
            &&& exists|error: MacosBleError| #[trigger]
                call_ensures(
                    discover,
                    (&data, GattWriteMode::WithResponse),
                    Err::<GattWriteTarget<K>, MacosBleError>(error),
                )
        },
        found.control is None && found.columba_tx is Some && found.columba_identity is Some ==> (
        found.columba_rx matches Some(rx) ==> exists|error: MacosBleError| #[trigger]
            call_ensures(
                discover,
                (&rx, GattWriteMode::WithoutResponse),
                Err::<GattWriteTarget<K>, MacosBleError>(error),
            )),
{
}

/// The plan is what the test answers, each time.
pub open spec fn answers_plan<
    K,
    F: Fn(&K, GattWriteMode) -> Result<GattWriteTarget<K>, MacosBleError>,
>(
    discover: F,
    plan: spec_fn(K, GattWriteMode) -> Result<GattWriteTarget<K>, MacosBleError>,
) -> bool {
    forall|k: &K, mode: GattWriteMode, answer: Result<GattWriteTarget<K>, MacosBleError>| #[trigger]
        call_ensures(discover, (k, mode), answer) ==> answer == plan(*k, mode)
}

/// The characteristics make a peer that can be used: a native one whose data characteristic, where
/// it has one, takes writes with a response, or, without a native one, a Columba one that is
/// complete and takes writes without a response.
pub open spec fn is_usable<K>(
    found: DiscoveredProfile<K>,
    plan: spec_fn(K, GattWriteMode) -> Result<GattWriteTarget<K>, MacosBleError>,
) -> bool {
    if found.control is Some {
        found.data matches Some(data) ==> plan(data, GattWriteMode::WithResponse) is Ok
    } else {
        &&& found.columba_tx is Some && found.columba_identity is Some
        &&& found.columba_rx matches Some(rx)
        &&& plan(rx, GattWriteMode::WithoutResponse) is Ok
    }
}

/// A peer is lost exactly where its characteristics could not be discovered or cannot be used. One
/// that can be used and has a session goes on by its own profile, the native one first; one without
/// a session is left alone.
pub proof fn law_profile_discovery<
    P,
    C,
    K: Clone,
    D,
    T,
    F: Fn(&K, GattWriteMode) -> Result<GattWriteTarget<K>, MacosBleError>,
>(
    state: &mut CentralState<P, C, K, D, T>,
    peer_id: CoreBluetoothPeerId,
    found: Option<DiscoveredProfile<K>>,
    discover: F,
    plan: spec_fn(K, GattWriteMode) -> Result<GattWriteTarget<K>, MacosBleError>,
    step: ProfileStep<P, K>,
)
    requires
        old(state).wf(),
        call_ensures(
            CentralState::<P, C, K, D, T>::did_discover_characteristics::<F>,
            (state, peer_id, found, discover),
            step,
        ),
        answers_plan(discover, plan),
    ensures
        step is Gone <==> !(found matches Some(found) && is_usable(found, plan)),
        step matches ProfileStep::Gone(finished) ==> is_lost(
            old(state)@,
            final(state)@,
            peer_id,
            finished,
        ),
        keeps_other_sessions(old(state)@, final(state)@, peer_id),
        step is Ignore ==> final(state)@ == old(state)@,
        found matches Some(found) ==> (is_usable(found, plan) ==> {
            let has_session = old(state)@.sessions.dom().contains(peer_id);
            &&& step is Ignore <==> !has_session
            &&& step is SubscribeNative <==> has_session && found.control is Some
            &&& step is SubscribeColumba <==> has_session && found.control is None
        }),
{
    state.registry.lemma_wf();
    lemma_finished(old(state)@, peer_id);
    if let Some(profile) = found {
        match step {
            ProfileStep::Gone(_) => {
                let error = choose|error: MacosBleError|
                    central_events::offers_nothing(profile, discover, error);
            },
            _ => {
                assert(is_usable(profile, plan));
            },
        }
    }
}

/// The peer lately lacked the service.
pub open spec fn lately_missed(guard: GuardModel, peer_id: CoreBluetoothPeerId, now: u64) -> bool {
    exists|i: int|
        0 <= i < guard.misses.len() && (#[trigger] guard.misses[i]).peer_id == peer_id && now
            - guard.misses[i].at < 300_000
}

/// The stale link of the peer was lately cancelled.
pub open spec fn lately_cancelled(
    guard: GuardModel,
    peer_id: CoreBluetoothPeerId,
    now: u64,
) -> bool {
    guard.cancellations.dom().contains(peer_id) && now - guard.cancellations[peer_id] < 30_000
}

proof fn lemma_guard_remembers(guard: GuardModel, peer_id: CoreBluetoothPeerId, now: u64)
    requires
        guard.wf(),
    ensures
        guard.suppressed(peer_id, now) <==> lately_missed(guard, peer_id, now),
        guard.cancelling(peer_id, now) <==> lately_cancelled(guard, peer_id, now),
{
    let p = discovery::miss_of(peer_id);
    search::lemma_first_where(guard.misses, p);
    if let Some(i) = guard.miss(peer_id) {
        assert(p(guard.misses[i]));
    }
    assert forall|j: int|
        0 <= j < guard.misses.len() && (#[trigger] guard.misses[j]).peer_id == peer_id implies
        guard.miss(peer_id) == Some(j) by {
        assert forall|h: int| 0 <= h < j implies !p(#[trigger] guard.misses[h]) by {
            assert(guard.misses[h].peer_id != guard.misses[j].peer_id);
        }
        search::lemma_first_where_is(guard.misses, p, j);
    }
}

/// What is made of a discovered peripheral, once closed sessions are gone. It is reported exactly
/// where it is free, is no likely stranger, and finds a place: then a sighting of it waits with the
/// handle and the signal of this discovery. A link that nobody owns is cancelled where links are
/// recovered and none was cancelled lately, and that is remembered. Otherwise nothing is registered.
pub proof fn law_discovery<P, C, K, D: GattInbox, T>(
    state: &mut CentralState<P, C, K, D, T>,
    found: Discovery<P>,
    now: u64,
    reaped: Reaped<P, K>,
    action: DiscoverAction,
)
    requires
        old(state).wf(),
        call_ensures(
            CentralState::<P, C, K, D, T>::did_discover,
            (state, true, found, now),
            (reaped, action),
        ),
    ensures
        ({
            let mid = old(state)@.reaped(reaped.closed@, now).state;
            let after = final(state)@;
            let peer_id = found.peer_id;
            let stranger = mid.recovery is Enabled && found.strength is Weak && lately_missed(
                mid.guard,
                peer_id,
                now,
            );
            let has_session = mid.sessions.dom().contains(peer_id);
            let linked = found.link_state is Connecting || found.link_state is Connected;
            &&& after.sessions == mid.sessions
            &&& action is Sighted <==> !stranger && !has_session
                && found.link_state is Disconnected && mid.registry.make_way(
                peer_id.spec_address(),
            ) is Some
            &&& action is Sighted ==> exists|i: int|
                {
                    &&& 0 <= i < after.registry.peripherals.len()
                    &&& (#[trigger] after.registry.peripherals[i]).peer_id == peer_id
                    &&& after.registry.peripherals[i].pending_sighting
                    &&& after.registry.peripherals[i].rssi == found.rssi
                    &&& after.registry.peripherals[i].peripheral == found.peripheral
                }
            &&& !(action is Sighted) ==> after.registry == mid.registry
            &&& action is CancelStale <==> !stranger && !has_session && linked
                && mid.recovery is Enabled && !lately_cancelled(mid.guard, peer_id, now)
            &&& action is CancelStale ==> after.guard.cancellations.dom().contains(peer_id)
                && after.guard.cancellations[peer_id] == now
            &&& stranger ==> action is Ignore
        }),
{
    let mid = old(state)@.reaped(reaped.closed@, now).state;
    state.registry.lemma_wf();
    state.guard.lemma_wf();
    old(state)@.law_reaping(reaped.closed@, now);
    lemma_guard_remembers(mid.guard, found.peer_id, now);
    mid.registry.law_observation_waits(found.peer_id, found.peripheral, found.rssi);
    let judged = mid.judged(found, now);
    assert(judged.guard.cancellations == mid.guard.cancellations);
    assert(judged.registry == mid.registry && judged.sessions == mid.sessions);
    assert(judged.guard.cancelling(found.peer_id, now) == mid.guard.cancelling(found.peer_id, now));
    let next = mid.registry.observe(found.peer_id, found.peripheral, found.rssi);
    if action is Sighted {
        assert(final(state)@.registry == next);
        let i = choose|i: int|
            0 <= i < next.peripherals.len() && (#[trigger] next.peripherals[i]).peer_id
                == found.peer_id;
        assert(final(state)@.registry.peripherals[i].peer_id == found.peer_id);
    }
}

/// With the radio off, a discovery changes nothing.
pub proof fn law_no_discovery_with_the_radio_off<P, C, K, D: GattInbox, T>(
    state: &mut CentralState<P, C, K, D, T>,
    found: Discovery<P>,
    now: u64,
    reaped: Reaped<P, K>,
    action: DiscoverAction,
)
    requires
        call_ensures(
            CentralState::<P, C, K, D, T>::did_discover,
            (state, false, found, now),
            (reaped, action),
        ),
    ensures
        action is Ignore,
        final(state)@ == old(state)@,
        reaped.closed@.len() == 0 && reaped.cancel@.len() == 0 && reaped.deliveries@.len() == 0,
{
}

/// Reaping touches nothing that is remembered of a peer whose session it leaves alone.
proof fn lemma_reaping_keeps_guard<P, C, K, D, T>(
    state: CentralModel<P, C, K, D, T>,
    closed: Seq<CoreBluetoothPeerId>,
    now: u64,
    peer_id: CoreBluetoothPeerId,
)
    requires
        !closed.contains(peer_id),
    ensures
        ({
            let after = state.reaped(closed, now).state;
            &&& after.guard.misses == state.guard.misses
            &&& after.guard.cancellations.dom().contains(peer_id)
                <==> state.guard.cancellations.dom().contains(peer_id)
            &&& after.guard.cancellations[peer_id] == state.guard.cancellations[peer_id]
            &&& after.recovery == state.recovery
        }),
    decreases closed.len(),
{
    if closed.len() > 0 {
        let earlier = closed.drop_last();
        assert forall|i: int| 0 <= i < earlier.len() implies earlier[i] != peer_id by {
            assert(earlier[i] == closed[i]);
        }
        assert(closed[closed.len() - 1] != peer_id);
        lemma_reaping_keeps_guard(state, earlier, now, peer_id);
    }
}

/// A stale link is not cancelled a second time while the first cancellation has its time, however
/// often the peripheral is discovered meanwhile.
pub proof fn law_stale_link_is_cancelled_once<P, C, K, D: GattInbox, T>(
    first: &mut CentralState<P, C, K, D, T>,
    second: &mut CentralState<P, C, K, D, T>,
    found: Discovery<P>,
    again: Discovery<P>,
    now: u64,
    later: u64,
    reaped: Reaped<P, K>,
    reaped_again: Reaped<P, K>,
    action: DiscoverAction,
)
    requires
        old(first).wf(),
        old(second).wf(),
        again.peer_id == found.peer_id,
        now <= later,
        later - now < 30_000,
        call_ensures(
            CentralState::<P, C, K, D, T>::did_discover,
            (first, true, found, now),
            (reaped, DiscoverAction::CancelStale),
        ),
        *old(second) == *final(first),
        call_ensures(
            CentralState::<P, C, K, D, T>::did_discover,
            (second, true, again, later),
            (reaped_again, action),
        ),
    ensures
        !(action is CancelStale),
{
    law_discovery(first, found, now, reaped, DiscoverAction::CancelStale);
    law_discovery(second, again, later, reaped_again, action);
    let closed = reaped_again.closed@;
    if closed.contains(found.peer_id) {
        let i = closed.index_of(found.peer_id);
        assert(old(second)@.sessions.dom().contains(closed[i]));
    }
    lemma_reaping_keeps_guard(old(second)@, closed, later, found.peer_id);
}

/// A peer without the service is lost, and where links are recovered its weak advertisements are
/// ignored for a while. A discovery that failed says nothing of the service, and a peer with the
/// service goes on as it was.
pub proof fn law_service_discovery<P, C, K, D, T>(
    state: &mut CentralState<P, C, K, D, T>,
    peer_id: CoreBluetoothPeerId,
    failed: bool,
    service_found: bool,
    now: u64,
    later: u64,
    lost: Option<Finished<P, K>>,
)
    requires
        old(state).wf(),
        now <= later,
        call_ensures(
            CentralState::<P, C, K, D, T>::did_discover_services,
            (state, peer_id, failed, service_found, now),
            lost,
        ),
    ensures
        match lost {
            None => !failed && service_found && final(state)@ == old(state)@,
            Some(finished) => {
                &&& failed || !service_found
                &&& is_lost(old(state)@, final(state)@, peer_id, finished)
                &&& final(state)@.guard.cancellations == old(state)@.guard.cancellations
                &&& if failed || old(state)@.recovery is Disabled {
                    final(state)@.guard == old(state)@.guard
                } else {
                    lately_missed(final(state)@.guard, peer_id, later) <==> later - now < 300_000
                }
            },
        },
{
    state.registry.lemma_wf();
    state.guard.lemma_wf();
    lemma_finished(old(state)@, peer_id);
    old(state)@.guard.law_miss(peer_id, now, later);
    lemma_guard_remembers(old(state)@.guard.missed(peer_id, now), peer_id, later);
}

/// A dialed peer that connects is asked for its services where it still has a session. One that
/// connects after the radio was switched off is forgotten and cancelled.
pub proof fn law_connection<P, C, K, D: GattInbox, T>(
    state: &mut CentralState<P, C, K, D, T>,
    radio_enabled: bool,
    peer_id: CoreBluetoothPeerId,
    now: u64,
    step: ConnectStep<P, K>,
)
    requires
        old(state).wf(),
        call_ensures(
            CentralState::<P, C, K, D, T>::did_connect,
            (state, radio_enabled, peer_id, now),
            step,
        ),
    ensures
        radio_enabled ==> {
            &&& step.discover_services <==> final(state)@.sessions.dom().contains(peer_id)
            &&& step.cancel is None
        },
        !radio_enabled ==> {
            &&& !step.discover_services
            &&& is_handle(old(state)@.registry, peer_id, step.cancel)
            &&& unregisters(old(state)@.registry, final(state)@.registry, peer_id)
            &&& final(state)@.sessions == old(state)@.sessions
        },
{
    state.registry.lemma_wf();
    lemma_finished(old(state)@, peer_id);
}

/// A peer that is disconnected is forgotten and its dialer told, and its stale link is no longer
/// being cancelled.
pub proof fn law_disconnection<P, C, K, D, T>(
    state: &mut CentralState<P, C, K, D, T>,
    peer_id: CoreBluetoothPeerId,
    told: Option<CompletionDelivery<K>>,
)
    requires
        old(state).wf(),
        call_ensures(
            CentralState::<P, C, K, D, T>::did_disconnect,
            (state, peer_id),
            told,
        ),
    ensures
        tells_failure(old(state)@, peer_id, told),
        unregisters(old(state)@.registry, final(state)@.registry, peer_id),
        drops_session(old(state)@, final(state)@, peer_id),
        final(state)@.guard.misses == old(state)@.guard.misses,
        final(state)@.guard.cancellations == old(state)@.guard.cancellations.remove(peer_id),
{
    state.registry.lemma_wf();
    lemma_finished(old(state)@, peer_id);
}

/// A peer that could not be connected is forgotten and its dialer told.
pub proof fn law_failed_connection<P, C, K, D, T>(
    state: &mut CentralState<P, C, K, D, T>,
    peer_id: CoreBluetoothPeerId,
    told: Option<CompletionDelivery<K>>,
)
    requires
        old(state).wf(),
        call_ensures(
            CentralState::<P, C, K, D, T>::did_fail_to_connect,
            (state, peer_id),
            told,
        ),
    ensures
        tells_failure(old(state)@, peer_id, told),
        unregisters(old(state)@.registry, final(state)@.registry, peer_id),
        drops_session(old(state)@, final(state)@, peer_id),
        final(state)@.guard == old(state)@.guard,
{
    state.registry.lemma_wf();
    lemma_finished(old(state)@, peer_id);
}

/// A subscription hands a session over only on the characteristic that its own profile waits for:
/// the control characteristic of a native peer, which is handed on as it is, and the TX
/// characteristic of a Columba peer that has told its identity. A failed one loses the peer.
pub proof fn law_subscription<P, C, K: Clone, D, T>(
    state: &mut CentralState<P, C, K, D, T>,
    peer_id: CoreBluetoothPeerId,
    failed: bool,
    role: Option<CharacteristicRole>,
    characteristic: K,
    step: EventStep<P, K>,
)
    requires
        old(state).wf(),
        call_ensures(
            CentralState::<P, C, K, D, T>::did_update_notification_state,
            (state, peer_id, failed, role, characteristic),
            step,
        ),
    ensures
        step is Gone <==> failed,
        step matches EventStep::Gone(finished) ==> is_lost(
            old(state)@,
            final(state)@,
            peer_id,
            finished,
        ),
        step matches EventStep::Stays(told) ==> {
            let before = old(state)@.sessions[peer_id];
            let after = final(state)@.sessions[peer_id];
            let known = old(state)@.sessions.dom().contains(peer_id);
            let native = known && before.profile is Native && role == Some(
                CharacteristicRole::Control,
            );
            let columba = known && role == Some(CharacteristicRole::ColumbaTx) && (before.profile
                matches CentralProfile::Columba { readiness, .. } && readiness is Identified);
            &&& keeps_other_sessions(old(state)@, final(state)@, peer_id)
            &&& final(state)@.registry == old(state)@.registry
            &&& known <==> final(state)@.sessions.dom().contains(peer_id)
            &&& told is Some <==> (native || columba) && before.completion_tx is Some
            &&& told matches Some(told) ==> {
                &&& Some(told.completion_tx) == before.completion_tx
                &&& after.completion_tx is None && after.profile is Ready
                &&& told.completion matches DialCompletion::Ready(chars)
                &&& native ==> {
                    &&& chars.peer_protocol == PeerProtocol::Native
                    &&& chars.control == characteristic
                    &&& chars.data == before.profile->data
                    &&& chars.peer_identity is None
                }
                &&& columba ==> {
                    &&& chars.peer_protocol == PeerProtocol::Columba
                    &&& chars.data == Some(before.profile->write)
                    &&& chars.peer_identity is Some
                }
            }
            &&& known && role == Some(CharacteristicRole::ColumbaTx) && (before.profile matches
                CentralProfile::Columba { readiness, .. } && !(readiness is Identified)) ==> (
            after.profile matches CentralProfile::Columba { readiness, .. }
                && readiness is Subscribed)
        },
{
    state.registry.lemma_wf();
    lemma_finished(old(state)@, peer_id);
}

/// An update without a value changes nothing and tells nobody anything.
pub proof fn law_update_without_a_value<
    P,
    C,
    K: Clone,
    D: GattInbox,
    T,
    F: Fn(&Vec<u8>) -> Option<C>,
>(
    state: &mut CentralState<P, C, K, D, T>,
    peer_id: CoreBluetoothPeerId,
    role: Option<CharacteristicRole>,
    decode: F,
    step: EventStep<P, K>,
)
    requires
        call_ensures(
            CentralState::<P, C, K, D, T>::did_update_value::<F>,
            (state, peer_id, false, role, None, decode),
            step,
        ),
    ensures
        step == EventStep::<P, K>::Stays(None),
        final(state)@ == old(state)@,
{
}

} // verus!
