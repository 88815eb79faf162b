//! What holds of a restored connection from its admission to the beginning of its session.

use crate::central::{BeginStep, CentralModel};
use crate::central_events;
use crate::central_events::EventStep;
use crate::ingress;
use crate::ingress::{GattInbox, Offer};
use crate::peer::{BleAddress, CoreBluetoothPeerId};
use crate::profile::CharacteristicRole;
use crate::registry::CentralPeerRegistry;
use crate::registry_model::{
    RegistryModel, RestoredAdmission, RestoredBufferResult, RestoredPhase,
};
use crate::restored;
use crate::restored::CallbackModel;
use crate::session::CentralPeerSession;
use vstd::prelude::*;

verus! {

/// The peer is restored and its session has not begun; the callbacks are what is buffered for it.
pub open spec fn buffers<P, C>(
    registry: RegistryModel<P, C>,
    peer_id: CoreBluetoothPeerId,
    callbacks: CallbackModel<C>,
) -> bool {
    exists|k: int|
        0 <= k < registry.restored.len() && (#[trigger] registry.restored[k]).peer_id == peer_id
            && registry.restored[k].callbacks == callbacks
}

/// The characteristic carries the fragments of the peer's stream.
pub open spec fn carries_fragments(role: Option<CharacteristicRole>) -> bool {
    role == Some(CharacteristicRole::Data) || role == Some(CharacteristicRole::ColumbaTx)
}

/// The characteristic carries control messages.
pub open spec fn carries_control(role: Option<CharacteristicRole>) -> bool {
    !carries_fragments(role) && role != Some(CharacteristicRole::ColumbaIdentity)
}

/// Every answer of `decode` is what `read` makes of the bytes.
pub open spec fn decodes<C, F: Fn(&Vec<u8>) -> Option<C>>(
    decode: F,
    read: spec_fn(Seq<u8>) -> Option<C>,
) -> bool {
    forall|bytes: &Vec<u8>, answer: Option<C>| #[trigger]
        call_ensures(decode, (bytes,), answer) ==> answer == read(bytes@)
}

/// What is buffered once the fragment has come: it follows what was there, or the handoff failed.
pub open spec fn follows_fragment<C>(
    before: CallbackModel<C>,
    after: CallbackModel<C>,
    fragment: Seq<u8>,
) -> bool {
    after.failed || {
        &&& after.data == before.data.push(fragment)
        &&& after.controls == before.controls
        &&& !before.failed
    }
}

/// What is buffered once the control message has come: it follows what was there, or the handoff
/// failed.
pub open spec fn follows_control<C>(
    before: CallbackModel<C>,
    after: CallbackModel<C>,
    control: C,
) -> bool {
    after.failed || {
        &&& after.controls == before.controls.push(control)
        &&& after.data == before.data
        &&& !before.failed
    }
}

/// The handoff fails only where it must: it failed before, or what came does not fit.
pub proof fn law_handoff_fails_only_on_overflow<C>(
    before: CallbackModel<C>,
    fragment: Seq<u8>,
    control: C,
)
    ensures
        follows_fragment(before, before.offer_data(fragment), fragment),
        follows_control(before, before.offer_control(control), control),
        before.failed ==> before.offer_data(fragment).failed && before.offer_control(
            control,
        ).failed,
        !before.failed ==> (before.offer_data(fragment).failed <==> restored::total_charge(
            before.data,
        ) + (if fragment.len() == 0 {
            1
        } else {
            fragment.len() as int
        }) > before.budget),
        !before.failed ==> (before.offer_control(control).failed <==> before.controls.len() >= 8),
{
}

/// A value of a restored peer is never lost on the way to its session: where it carries a fragment
/// it is buffered behind the earlier ones, where it carries a control message so is that, and
/// otherwise the handoff has failed. No session sees it, and nothing of any other peer changes.
pub proof fn law_restored_values_are_buffered<
    P,
    C,
    K: Clone,
    D: GattInbox,
    T,
    F: Fn(&Vec<u8>) -> Option<C>,
>(
    before: CentralModel<P, C, K, D, T>,
    after: CentralModel<P, C, K, D, T>,
    step: EventStep<P, K>,
    peer_id: CoreBluetoothPeerId,
    role: Option<CharacteristicRole>,
    value: Vec<u8>,
    decode: F,
    read: spec_fn(Seq<u8>) -> Option<C>,
    callbacks: CallbackModel<C>,
)
    requires
        before.registry.wf(),
        buffers(before.registry, peer_id, callbacks),
        decodes(decode, read),
        role != Some(CharacteristicRole::ColumbaIdentity),
        central_events::value_taken(before, after, step, peer_id, role, value, decode),
    ensures
        step == EventStep::<P, K>::Stays(None),
        after.sessions == before.sessions,
        after.guard == before.guard,
        after.registry.peripherals == before.registry.peripherals,
        after.registry.restored.len() == before.registry.restored.len(),
        forall|k: int|
            0 <= k < before.registry.restored.len() && (
            #[trigger] before.registry.restored[k]).peer_id != peer_id
                ==> after.registry.restored[k] == before.registry.restored[k],
        forall|k: int|
            0 <= k < before.registry.restored.len() && (
            #[trigger] before.registry.restored[k]).peer_id == peer_id ==> {
                let now = after.registry.restored[k];
                &&& now.peer_id == peer_id
                &&& now.phase == before.registry.restored[k].phase
                &&& carries_fragments(role) ==> follows_fragment(callbacks, now.callbacks, value@)
                &&& carries_control(role) ==> match read(value@) {
                    Some(control) => follows_control(callbacks, now.callbacks, control),
                    None => now.callbacks == callbacks,
                }
            },
        carries_fragments(role) ==> exists|now: CallbackModel<C>| #[trigger]
            buffers(after.registry, peer_id, now) && follows_fragment(callbacks, now, value@),
        carries_control(role) ==> exists|now: CallbackModel<C>| #[trigger]
            buffers(after.registry, peer_id, now) && match read(value@) {
                Some(control) => follows_control(callbacks, now, control),
                None => now == callbacks,
            },
{
    let k = choose|k: int|
        0 <= k < before.registry.restored.len() && (
        #[trigger] before.registry.restored[k]).peer_id == peer_id
            && before.registry.restored[k].callbacks == callbacks;
    before.registry.lemma_record_is(k);
    assert forall|j: int|
        0 <= j < before.registry.restored.len() && (
        #[trigger] before.registry.restored[j]).peer_id == peer_id implies j == k by {
        before.registry.lemma_record_is(j);
    }
    let now = after.registry.restored[k].callbacks;
    assert(after.registry.restored[k].peer_id == peer_id);
    assert(buffers(after.registry, peer_id, now));
}

/// While a restored peer waits for its session, what is buffered for it is touched by nothing but
/// its own values: not by an offer, a claim or an observation, not by another restored peripheral
/// or a newer handle of its own, not by a sighting, and not by the removal, the activation or the
/// session of another peer.
pub proof fn law_handoff_is_undisturbed<P, C>(
    registry: RegistryModel<P, C>,
    peer_id: CoreBluetoothPeerId,
    callbacks: CallbackModel<C>,
    address: BleAddress,
    other: CoreBluetoothPeerId,
    peripheral: P,
    rssi: Option<i8>,
)
    requires
        registry.wf(),
        buffers(registry, peer_id, callbacks),
    ensures
        buffers(registry.offered(), peer_id, callbacks),
        buffers(registry.claimed(address), peer_id, callbacks),
        buffers(registry.observe(other, peripheral, rssi), peer_id, callbacks),
        buffers(registry.admitted(other, peripheral), peer_id, callbacks),
        buffers(registry.sighted(), peer_id, callbacks),
        buffers(registry.activated(other), peer_id, callbacks),
        other != peer_id ==> buffers(registry.removed(other), peer_id, callbacks),
        other != peer_id ==> buffers(registry.begun(other), peer_id, callbacks),
{
    let k = choose|k: int|
        0 <= k < registry.restored.len() && (#[trigger] registry.restored[k]).peer_id == peer_id
            && registry.restored[k].callbacks == callbacks;
    let record = registry.restored[k];
    assert(buffers(registry.offered(), peer_id, callbacks)) by {
        registry.law_offers_come_in_order();
        assert(registry.offered().restored[k].peer_id == peer_id);
    }
    assert(buffers(registry.claimed(address), peer_id, callbacks)) by {
        registry.law_claim_takes_the_offered(address);
        assert(registry.claimed(address).restored[k].peer_id == peer_id);
    }
    assert(buffers(registry.observe(other, peripheral, rssi), peer_id, callbacks)) by {
        registry.law_observation_waits(other, peripheral, rssi);
        assert(registry.observe(other, peripheral, rssi).restored[k] == record);
    }
    assert(buffers(registry.admitted(other, peripheral), peer_id, callbacks)) by {
        registry.law_admission_answers(other, peripheral);
        let admitted = registry.admitted(other, peripheral);
        if registry.admission(other) == RestoredAdmission::Admitted {
            assert(admitted.restored.drop_last()[k] == record);
        }
        assert(admitted.restored[k] == record);
    }
    assert(buffers(registry.sighted(), peer_id, callbacks)) by {
        registry.law_sightings_come_in_order();
        assert(registry.sighted().restored[k] == record);
    }
    assert(buffers(registry.activated(other), peer_id, callbacks)) by {
        assert(registry.activated(other).restored[k] == record);
    }
    if other != peer_id {
        assert(buffers(registry.removed(other), peer_id, callbacks)) by {
            registry.law_removal_is_exact(other);
            let removed = registry.removed(other);
            let r = removed.restored.index_of(record);
            assert(removed.restored[r] == record);
        }
        assert(buffers(registry.begun(other), peer_id, callbacks)) by {
            registry.law_beginning_is_exact(other);
            let begun = registry.begun(other);
            if registry.dialing(other) {
                let b = begun.restored.index_of(record);
                assert(begun.restored[b] == record);
            } else {
                assert(begun.restored[k] == record);
            }
        }
    }
}

/// Something that happens while a restored peer waits for its session.
pub enum HandoffEvent {
    /// A characteristic of the peer has a new value.
    Value { role: Option<CharacteristicRole>, value: Vec<u8> },
    /// Anything that leaves what is buffered for the peer as it is.
    Aside,
}

/// The event leads from one state to the next.
pub open spec fn happens<P, C, K: Clone, D: GattInbox, T, F: Fn(&Vec<u8>) -> Option<C>>(
    before: CentralModel<P, C, K, D, T>,
    after: CentralModel<P, C, K, D, T>,
    peer_id: CoreBluetoothPeerId,
    event: HandoffEvent,
    decode: F,
) -> bool {
    match event {
        HandoffEvent::Value { role, value } => role != Some(CharacteristicRole::ColumbaIdentity)
            && exists|step: EventStep<P, K>| #[trigger]
            central_events::value_taken(before, after, step, peer_id, role, value, decode),
        HandoffEvent::Aside => forall|callbacks: CallbackModel<C>| #[trigger]
            buffers(before.registry, peer_id, callbacks) ==> buffers(
                after.registry,
                peer_id,
                callbacks,
            ),
    }
}

/// The fragments that have come, in their order.
pub open spec fn fragments_come(events: Seq<HandoffEvent>) -> Seq<Seq<u8>>
    decreases events.len(),
{
    if events.len() == 0 {
        Seq::empty()
    } else {
        let earlier = fragments_come(events.drop_last());
        match events.last() {
            HandoffEvent::Value { role, value } => if carries_fragments(role) {
                earlier.push(value@)
            } else {
                earlier
            },
            HandoffEvent::Aside => earlier,
        }
    }
}

/// The control messages that have come, in their order.
pub open spec fn controls_come<C>(
    events: Seq<HandoffEvent>,
    read: spec_fn(Seq<u8>) -> Option<C>,
) -> Seq<C>
    decreases events.len(),
{
    if events.len() == 0 {
        Seq::empty()
    } else {
        let earlier = controls_come(events.drop_last(), read);
        match events.last() {
            HandoffEvent::Value { role, value } => match read(value@) {
                Some(control) if carries_control(role) => earlier.push(control),
                _ => earlier,
            },
            HandoffEvent::Aside => earlier,
        }
    }
}

/// Whatever happens between the admission of a restored peer and the beginning of its session, what
/// is buffered for it is exactly what has come for it, in its order, unless the handoff failed.
pub proof fn law_handoff_skips_nothing<
    P,
    C,
    K: Clone,
    D: GattInbox,
    T,
    F: Fn(&Vec<u8>) -> Option<C>,
>(
    states: Seq<CentralModel<P, C, K, D, T>>,
    events: Seq<HandoffEvent>,
    peer_id: CoreBluetoothPeerId,
    decode: F,
    read: spec_fn(Seq<u8>) -> Option<C>,
    start: CallbackModel<C>,
)
    requires
        states.len() == events.len() + 1,
        forall|i: int| 0 <= i < states.len() ==> (#[trigger] states[i]).registry.wf(),
        decodes(decode, read),
        start.controls.len() == 0 && start.data.len() == 0 && !start.failed,
        buffers(states[0].registry, peer_id, start),
        forall|i: int|
            0 <= i < events.len() ==> happens(
                states[i],
                states[i + 1],
                peer_id,
                #[trigger] events[i],
                decode,
            ),
    ensures
        exists|now: CallbackModel<C>|
            {
                &&& #[trigger] buffers(states.last().registry, peer_id, now)
                &&& now.failed || {
                    &&& now.data == fragments_come(events)
                    &&& now.controls == controls_come(events, read)
                }
            },
    decreases events.len(),
{
    if events.len() == 0 {
        assert(start.data =~= fragments_come(events));
        assert(start.controls =~= controls_come(events, read));
        assert(buffers(states.last().registry, peer_id, start));
    } else {
        let n = events.len() - 1;
        let earlier = events.drop_last();
        let past = states.drop_last();
        assert forall|i: int| 0 <= i < earlier.len() implies happens(
            past[i],
            past[i + 1],
            peer_id,
            #[trigger] earlier[i],
            decode,
        ) by {
            assert(earlier[i] == events[i]);
        }
        law_handoff_skips_nothing(past, earlier, peer_id, decode, read, start);
        let was = choose|was: CallbackModel<C>|
            {
                &&& #[trigger] buffers(past.last().registry, peer_id, was)
                &&& was.failed || {
                    &&& was.data == fragments_come(earlier)
                    &&& was.controls == controls_come(earlier, read)
                }
            };
        assert(past.last() == states[n]);
        assert(states.last() == states[n + 1]);
        assert(happens(states[n], states[n + 1], peer_id, events[n], decode));
        match events[n] {
            HandoffEvent::Value { role, value } => {
                let step = choose|step: EventStep<P, K>| #[trigger]
                    central_events::value_taken(
                        states[n],
                        states[n + 1],
                        step,
                        peer_id,
                        role,
                        value,
                        decode,
                    );
                law_restored_values_are_buffered(
                    states[n],
                    states[n + 1],
                    step,
                    peer_id,
                    role,
                    value,
                    decode,
                    read,
                    was,
                );
            },
            HandoffEvent::Aside => {
                assert(buffers(states.last().registry, peer_id, was));
            },
        }
    }
}

/// Reaping keeps what is buffered for every peer whose session it leaves alone, and leaves no entry
/// of a peer whose session it reaps.
pub proof fn lemma_reaping_and_handoff<P, C, K, D, T>(
    state: CentralModel<P, C, K, D, T>,
    closed: Seq<CoreBluetoothPeerId>,
    now: u64,
    peer_id: CoreBluetoothPeerId,
    callbacks: CallbackModel<C>,
)
    requires
        state.wf(),
        buffers(state.registry, peer_id, callbacks),
    ensures
        closed.contains(peer_id) ==> forall|i: int|
            0 <= i < state.reaped(closed, now).state.registry.peripherals.len() ==> (
            #[trigger] state.reaped(closed, now).state.registry.peripherals[i]).peer_id != peer_id,
        !closed.contains(peer_id) ==> buffers(
            state.reaped(closed, now).state.registry,
            peer_id,
            callbacks,
        ),
    decreases closed.len(),
{
    if closed.len() > 0 {
        let earlier = closed.drop_last();
        lemma_reaping_and_handoff(state, earlier, now, peer_id, callbacks);
        state.law_reaping(earlier, now);
        let before = state.reaped(earlier, now).state;
        let last = closed.last();
        before.registry.law_removal_is_exact(last);
        let after = state.reaped(closed, now).state;
        assert(after.registry == before.registry.removed(last));
        assert(closed[closed.len() - 1] == last);
        if earlier.contains(peer_id) {
            let i = earlier.index_of(peer_id);
            assert(closed[i] == peer_id);
            assert forall|i: int| 0 <= i < after.registry.peripherals.len() implies (
            #[trigger] after.registry.peripherals[i]).peer_id != peer_id by {
                let j = before.registry.peripherals.index_of(after.registry.peripherals[i]);
                assert(before.registry.peripherals[j] == after.registry.peripherals[i]);
            }
        } else if last != peer_id {
            assert forall|i: int| 0 <= i < closed.len() implies closed[i] != peer_id by {
                if i < earlier.len() {
                    assert(earlier[i] == closed[i]);
                }
            }
            let k = choose|k: int|
                0 <= k < before.registry.restored.len() && (
                #[trigger] before.registry.restored[k]).peer_id == peer_id
                    && before.registry.restored[k].callbacks == callbacks;
            let r = after.registry.restored.index_of(before.registry.restored[k]);
            assert(after.registry.restored[r] == before.registry.restored[k]);
        }
    }
}

/// The offers are those of the values, each once, in their order and taken.
pub open spec fn took_exactly<A>(offers: Seq<Offer<A>>, values: Seq<A>) -> bool {
    &&& offers.len() == values.len()
    &&& forall|i: int|
        0 <= i < values.len() ==> (#[trigger] offers[i]).value == values[i] && offers[i].taken
}

/// The session of a restored peer begins only where everything that was buffered reaches its owner:
/// a new session that began has seen exactly the buffered control messages and fragments, each once
/// and in its order, and the failed handoff of a peer never becomes a session.
pub proof fn law_session_gets_what_was_buffered<P, C, K, D: GattInbox, T>(
    begin: BeginStep<P, K>,
    before: CentralModel<P, C, K, D, T>,
    after: CentralModel<P, C, K, D, T>,
    peer_id: CoreBluetoothPeerId,
    session: CentralPeerSession<C, K, D, T>,
    now: u64,
    callbacks: CallbackModel<C>,
)
    requires
        before.wf(),
        buffers(before.registry, peer_id, callbacks),
        session.control_tx.offers().len() == 0 && session.data_tx.offers().len() == 0,
        begin.of(before, after, true, peer_id, session, now),
        begin.began,
    ensures
        !callbacks.failed,
        after.sessions.dom().contains(peer_id),
        took_exactly(after.sessions[peer_id].data_tx.offers(), callbacks.data),
        took_exactly(after.sessions[peer_id].control_tx.offers(), callbacks.controls),
        after.sessions[peer_id].profile == session.profile,
        after.sessions[peer_id].completion_tx == session.completion_tx,
        forall|later: CallbackModel<C>| !#[trigger] buffers(after.registry, peer_id, later),
        exists|i: int|
            0 <= i < before.registry.restored.len() && (
            #[trigger] before.registry.restored[i]).peer_id == peer_id
                && before.registry.restored[i].phase == RestoredPhase::Claimed,
{
    let closed = begin.reaped.closed@;
    let reaped = before.reaped(closed, now).state;
    before.law_reaping(closed, now);
    lemma_reaping_and_handoff(before, closed, now, peer_id, callbacks);
    reaped.registry.lemma_not_found(peer_id);
    reaped.registry.law_beginning_is_exact(peer_id);
    reaped.registry.law_session_begins_once(peer_id);
    assert(!closed.contains(peer_id));
    let k = choose|k: int|
        0 <= k < reaped.registry.restored.len() && (
        #[trigger] reaped.registry.restored[k]).peer_id == peer_id
            && reaped.registry.restored[k].callbacks == callbacks;
    reaped.registry.lemma_record_is(k);
    lemma_reaping_keeps_records(before, closed, now, k);
    let handed = after.sessions[peer_id];
    assert(handed.data_tx.offers() =~= ingress::all_taken(callbacks.data));
    assert(handed.control_tx.offers() =~= ingress::all_taken(callbacks.controls));
    assert forall|later: CallbackModel<C>| !#[trigger] buffers(
        after.registry,
        peer_id,
        later,
    ) by {}
}

/// A restored peer that is left after reaping was there before.
proof fn lemma_reaping_keeps_records<P, C, K, D, T>(
    state: CentralModel<P, C, K, D, T>,
    closed: Seq<CoreBluetoothPeerId>,
    now: u64,
    k: int,
)
    requires
        state.wf(),
        0 <= k < state.reaped(closed, now).state.registry.restored.len(),
    ensures
        state.registry.restored.contains(state.reaped(closed, now).state.registry.restored[k]),
    decreases closed.len(),
{
    if closed.len() > 0 {
        let earlier = closed.drop_last();
        state.law_reaping(earlier, now);
        let before = state.reaped(earlier, now).state;
        before.registry.law_removal_is_exact(closed.last());
        let after = state.reaped(closed, now).state;
        assert(after.registry == before.registry.removed(closed.last()));
        let j = before.registry.restored.index_of(after.registry.restored[k]);
        assert(before.registry.restored[j] == after.registry.restored[k]);
        lemma_reaping_keeps_records(state, earlier, now, j);
    }
}

/// From its admission to its session, nothing of a restored peer's stream is lost: a new session
/// that begins has been handed exactly all fragments and all control messages that came since the
/// peer was admitted, each once and in its order.
pub proof fn law_restored_stream_is_whole<
    P,
    C,
    K: Clone,
    D: GattInbox,
    T,
    F: Fn(&Vec<u8>) -> Option<C>,
>(
    states: Seq<CentralModel<P, C, K, D, T>>,
    events: Seq<HandoffEvent>,
    peer_id: CoreBluetoothPeerId,
    decode: F,
    read: spec_fn(Seq<u8>) -> Option<C>,
    start: CallbackModel<C>,
    begin: BeginStep<P, K>,
    after: CentralModel<P, C, K, D, T>,
    session: CentralPeerSession<C, K, D, T>,
    now: u64,
)
    requires
        states.len() == events.len() + 1,
        forall|i: int| 0 <= i < states.len() ==> (#[trigger] states[i]).wf(),
        decodes(decode, read),
        start.controls.len() == 0 && start.data.len() == 0 && !start.failed,
        buffers(states[0].registry, peer_id, start),
        forall|i: int|
            0 <= i < events.len() ==> happens(
                states[i],
                states[i + 1],
                peer_id,
                #[trigger] events[i],
                decode,
            ),
        session.control_tx.offers().len() == 0 && session.data_tx.offers().len() == 0,
        begin.of(states.last(), after, true, peer_id, session, now),
        begin.began,
    ensures
        took_exactly(after.sessions[peer_id].data_tx.offers(), fragments_come(events)),
        took_exactly(after.sessions[peer_id].control_tx.offers(), controls_come(events, read)),
{
    law_handoff_skips_nothing(states, events, peer_id, decode, read, start);
    let held = choose|held: CallbackModel<C>|
        {
            &&& #[trigger] buffers(states.last().registry, peer_id, held)
            &&& held.failed || {
                &&& held.data == fragments_come(events)
                &&& held.controls == controls_come(events, read)
            }
        };
    law_session_gets_what_was_buffered(
        begin,
        states.last(),
        after,
        peer_id,
        session,
        now,
        held,
    );
}

/// A fragment of a restored peer is buffered behind the others, or is the first that is too much and
/// fails the handoff, or finds it failed; it is handed back exactly where the peer is not restored.
/// What is said of it is what became of it, and nobody else's handoff is touched.
pub proof fn law_buffered_fragment_is_reported<P, C>(
    registry: &mut CentralPeerRegistry<P, C>,
    peer_id: CoreBluetoothPeerId,
    fragment: Vec<u8>,
    said: RestoredBufferResult<Vec<u8>>,
    callbacks: CallbackModel<C>,
)
    requires
        old(registry).wf(),
        call_ensures(
            CentralPeerRegistry::<P, C>::buffer_restored_data,
            (registry, peer_id, fragment),
            said,
        ),
    ensures
        said is NotRestored <==> forall|k: int|
            0 <= k < old(registry)@.restored.len() ==> (
            #[trigger] old(registry)@.restored[k]).peer_id != peer_id,
        said matches RestoredBufferResult::NotRestored(back) ==> back == fragment && final(
            registry)@ == old(registry)@,
        final(registry)@.peripherals == old(registry)@.peripherals,
        buffers(old(registry)@, peer_id, callbacks) ==> {
            &&& said is AlreadyFailed <==> callbacks.failed
            &&& said is Buffered ==> exists|now: CallbackModel<C>| #[trigger]
                buffers(final(registry)@, peer_id, now) && !now.failed && now.data
                    == callbacks.data.push(fragment@) && now.controls == callbacks.controls
            &&& said is Overflowed ==> exists|now: CallbackModel<C>| #[trigger]
                buffers(final(registry)@, peer_id, now) && now.failed
        },
{
    registry.lemma_wf();
    old(registry)@.lemma_not_found(peer_id);
    if buffers(old(registry)@, peer_id, callbacks) {
        let k = choose|k: int|
            0 <= k < old(registry)@.restored.len() && (
            #[trigger] old(registry)@.restored[k]).peer_id == peer_id && old(
                registry)@.restored[k].callbacks == callbacks;
        old(registry)@.lemma_record_is(k);
        let now = callbacks.offer_data(fragment@);
        assert(final(registry)@.restored[k].peer_id == peer_id);
        assert(buffers(final(registry)@, peer_id, now));
    }
}

/// The same of a control message.
pub proof fn law_buffered_control_is_reported<P, C>(
    registry: &mut CentralPeerRegistry<P, C>,
    peer_id: CoreBluetoothPeerId,
    control: C,
    said: RestoredBufferResult<C>,
    callbacks: CallbackModel<C>,
)
    requires
        old(registry).wf(),
        call_ensures(
            CentralPeerRegistry::<P, C>::buffer_restored_control,
            (registry, peer_id, control),
            said,
        ),
    ensures
        said is NotRestored <==> forall|k: int|
            0 <= k < old(registry)@.restored.len() ==> (
            #[trigger] old(registry)@.restored[k]).peer_id != peer_id,
        said matches RestoredBufferResult::NotRestored(back) ==> back == control && final(
            registry)@ == old(registry)@,
        final(registry)@.peripherals == old(registry)@.peripherals,
        buffers(old(registry)@, peer_id, callbacks) ==> {
            &&& said is AlreadyFailed <==> callbacks.failed
            &&& said is Buffered ==> exists|now: CallbackModel<C>| #[trigger]
                buffers(final(registry)@, peer_id, now) && !now.failed && now.controls
                    == callbacks.controls.push(control) && now.data == callbacks.data
            &&& said is Overflowed ==> exists|now: CallbackModel<C>| #[trigger]
                buffers(final(registry)@, peer_id, now) && now.failed
        },
{
    registry.lemma_wf();
    old(registry)@.lemma_not_found(peer_id);
    if buffers(old(registry)@, peer_id, callbacks) {
        let k = choose|k: int|
            0 <= k < old(registry)@.restored.len() && (
            #[trigger] old(registry)@.restored[k]).peer_id == peer_id && old(
                registry)@.restored[k].callbacks == callbacks;
        old(registry)@.lemma_record_is(k);
        let now = callbacks.offer_control(control);
        assert(final(registry)@.restored[k].peer_id == peer_id);
        assert(buffers(final(registry)@, peer_id, now));
    }
}

} // verus!
