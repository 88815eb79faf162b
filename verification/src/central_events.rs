//! What each CoreBluetooth callback of the central role makes of its state.

use crate::central::{CentralModel, CentralState, Finished, Reaped};
use crate::dial::PeripheralLinkState;
use crate::discovery;
use crate::discovery::{
    discover_disposition, CandidateStrength, DiscoverDisposition, SessionPresence,
    StaleCancellation, StaleLinkRecovery,
};
use crate::error::MacosBleError;
use crate::gatt_write::{GattWriteMode, GattWriteRequest, GattWriteTarget};
use crate::ingress;
use crate::ingress::{BoundedIngress, GattInbox, Offer};
use crate::peer::{BleIdentity, CoreBluetoothPeerId};
use crate::profile::{CharacteristicRole, DiscoveredProfile};
use crate::registry_model::{RegistryModel, RestoredAdmission, RestoredBufferResult};
use crate::session;
use crate::session::{
    CentralPeerSession, CentralProfile, CompletionDelivery, WriteReply, WriteStep,
};
use std::collections::VecDeque;
use vstd::laws_eq;
use vstd::prelude::*;

verus! {

/// What is asked for a peripheral that CoreBluetooth restored.
#[derive(Clone, Copy, Debug, PartialEq, Eq, Structural)]
pub enum RestoreAction {
    /// Listen to it from now on.
    Attach,
    /// Nothing: it is owned already.
    Ignore,
    /// Cancel its connection: there is no room for it.
    Cancel,
    /// Stop listening to it and cancel its connection: the radio is off.
    DetachAndCancel,
}

/// A peripheral that CoreBluetooth restored.
pub struct RestoredPeripheral<P> {
    pub peer_id: CoreBluetoothPeerId,
    pub peripheral: P,
}

/// What is asked for a restored peripheral of the peer.
pub open spec fn restore_action<P, C>(
    registry: RegistryModel<P, C>,
    radio_enabled: bool,
    peer_id: CoreBluetoothPeerId,
) -> RestoreAction {
    if radio_enabled {
        match registry.admission(peer_id) {
            RestoredAdmission::Admitted => RestoreAction::Attach,
            RestoredAdmission::Updated => RestoreAction::Attach,
            RestoredAdmission::AlreadyOwned => RestoreAction::Ignore,
            RestoredAdmission::Full => RestoreAction::Cancel,
        }
    } else {
        RestoreAction::DetachAndCancel
    }
}

/// The registry after a restored peripheral was presented. A radio that is off adopts nothing, and
/// forgets an earlier owner so that nobody cancels its connection twice.
pub open spec fn restored_one<P, C>(
    registry: RegistryModel<P, C>,
    radio_enabled: bool,
    restored: RestoredPeripheral<P>,
) -> RegistryModel<P, C> {
    if radio_enabled {
        registry.admitted(restored.peer_id, restored.peripheral)
    } else {
        registry.removed(restored.peer_id)
    }
}

/// The registry after the restored peripherals were presented in turn.
pub open spec fn restored_all<P, C>(
    registry: RegistryModel<P, C>,
    radio_enabled: bool,
    restored: Seq<RestoredPeripheral<P>>,
) -> RegistryModel<P, C>
    decreases restored.len(),
{
    if restored.len() == 0 {
        registry
    } else {
        restored_one(
            restored_all(registry, radio_enabled, restored.drop_last()),
            radio_enabled,
            restored.last(),
        )
    }
}

impl<P, C, K, D, T> CentralState<P, C, K, D, T> {
    /// Takes in the peripherals that CoreBluetooth restored and says what is asked for each.
    pub fn restore_peripherals(
        &mut self,
        radio_enabled: bool,
        restored: VecDeque<RestoredPeripheral<P>>,
    ) -> (r: Vec<RestoreAction>)
        requires
            old(self).wf(),
        ensures
            final(self).wf(),
            final(self)@ == old(self)@.with_registry(
                restored_all(old(self)@.registry, radio_enabled, restored@),
            ),
            r@.len() == restored@.len(),
            forall|i: int|
                0 <= i < r@.len() ==> #[trigger] r@[i] == restore_action(
                    restored_all(old(self)@.registry, radio_enabled, restored@.take(i)),
                    radio_enabled,
                    restored@[i].peer_id,
                ),
    {
        let ghost all = restored@;
        let ghost start = self@.registry;
        let mut waiting = restored;
        let mut actions: Vec<RestoreAction> = Vec::new();
        let ghost mut done: int = 0;
        assert(all.take(0) =~= Seq::<RestoredPeripheral<P>>::empty());
        assert(all.skip(0) =~= all);
        while waiting.len() > 0
            invariant
                self.wf(),
                0 <= done <= all.len(),
                waiting@ == all.skip(done),
                actions@.len() == done,
                start == old(self)@.registry,
                self@ == old(self)@.with_registry(
                    restored_all(start, radio_enabled, all.take(done)),
                ),
                forall|i: int|
                    0 <= i < done ==> #[trigger] actions@[i] == restore_action(
                        restored_all(start, radio_enabled, all.take(i)),
                        radio_enabled,
                        all[i].peer_id,
                    ),
            decreases waiting@.len(),
        {
            if let Some(next) = waiting.pop_front() {
                proof {
                    assert(next == all[done]);
                    assert(waiting@ =~= all.skip(done + 1));
                    assert(all.take(done + 1).drop_last() =~= all.take(done));
                }
                if !radio_enabled {
                    let _ = self.registry.remove_peer(next.peer_id);
                    actions.push(RestoreAction::DetachAndCancel);
                } else {
                    let action = match self.registry.admit_restored(next.peer_id, next.peripheral) {
                        RestoredAdmission::Admitted => RestoreAction::Attach,
                        RestoredAdmission::Updated => RestoreAction::Attach,
                        RestoredAdmission::AlreadyOwned => RestoreAction::Ignore,
                        RestoredAdmission::Full => RestoreAction::Cancel,
                    };
                    actions.push(action);
                }
                proof {
                    done = done + 1;
                }
            }
        }
        assert(all.take(done) =~= all);
        actions
    }
}

/// The strength of a signal as CoreBluetooth reports it. 127 stands for an unknown strength.
pub fn rssi_from_dbm(dbm: i64) -> (r: Option<i8>)
    ensures
        r == if -128 <= dbm < 127 {
            Some(dbm as i8)
        } else {
            None
        },
{
    if dbm >= -128 && dbm < 127 {
        Some(dbm as i8)
    } else {
        None
    }
}

/// What is asked for a discovered peripheral.
#[derive(Clone, Copy, Debug, PartialEq, Eq, Structural)]
pub enum DiscoverAction {
    /// Nothing.
    Ignore,
    /// Cancel its stale connection.
    CancelStale,
    /// Wake whoever waits for sightings.
    Sighted,
}

/// One discovered peripheral.
pub struct Discovery<P> {
    pub peer_id: CoreBluetoothPeerId,
    pub peripheral: P,
    pub rssi: Option<i8>,
    pub strength: CandidateStrength,
    pub link_state: PeripheralLinkState,
}

impl<P, C, K, D, T> CentralModel<P, C, K, D, T> {
    /// A weak candidate is turned away: stale links are recovered here and the peer lately lacked
    /// the service.
    pub open spec fn turns_away(self, found: Discovery<P>, now: u64) -> bool {
        self.recovery is Enabled && found.strength is Weak && self.guard.suppressed(
            found.peer_id,
            now,
        )
    }

    /// The central role once the candidate was judged.
    pub open spec fn judged(self, found: Discovery<P>, now: u64) -> Self {
        if self.recovery is Enabled && found.strength is Weak {
            CentralModel { guard: self.guard.judged(found.peer_id, now), ..self }
        } else {
            self
        }
    }

    /// What is made of a peripheral that was not turned away.
    pub open spec fn disposition(self, found: Discovery<P>, now: u64) -> DiscoverDisposition {
        discovery::disposition(
            found.link_state,
            if self.sessions.dom().contains(found.peer_id) {
                SessionPresence::Present
            } else {
                SessionPresence::Absent
            },
            if self.guard.cancelling(found.peer_id, now) {
                StaleCancellation::InFlight
            } else {
                StaleCancellation::Idle
            },
            self.recovery,
        )
    }

    /// The central role after the peripheral was discovered, and what is asked for it.
    pub open spec fn discovered(self, found: Discovery<P>, now: u64) -> (Self, DiscoverAction) {
        let judged = self.judged(found, now);
        let asked = CentralModel { guard: judged.guard.asked(found.peer_id, now), ..judged };
        if self.turns_away(found, now) {
            (judged, DiscoverAction::Ignore)
        } else {
            match judged.disposition(found, now) {
                DiscoverDisposition::IgnoreOwned => (asked, DiscoverAction::Ignore),
                DiscoverDisposition::WaitForDisconnect => (asked, DiscoverAction::Ignore),
                DiscoverDisposition::CancelStale => (
                    CentralModel { guard: asked.guard.cancelled(found.peer_id, now), ..asked },
                    DiscoverAction::CancelStale,
                ),
                DiscoverDisposition::Adopt => (
                    asked.with_registry(
                        asked.registry.observe(found.peer_id, found.peripheral, found.rssi),
                    ),
                    if asked.registry.make_way(found.peer_id.spec_address()) is Some {
                        DiscoverAction::Sighted
                    } else {
                        DiscoverAction::Ignore
                    },
                ),
            }
        }
    }
}

impl<P, C, K, D: GattInbox, T> CentralState<P, C, K, D, T> {
    /// A peripheral was discovered. With the radio off nothing happens.
    pub fn did_discover(&mut self, radio_enabled: bool, found: Discovery<P>, now: u64) -> (r: (
        Reaped<P, K>,
        DiscoverAction,
    ))
        requires
            old(self).wf(),
        ensures
            final(self).wf(),
            !radio_enabled ==> r.0.is_nothing() && r.1 is Ignore && final(self)@ == old(self)@,
            radio_enabled ==> {
                let reaped = old(self)@.reaped(r.0.closed@, now).state;
                &&& r.0.of(old(self)@, now)
                &&& (final(self)@, r.1) == reaped.discovered(found, now)
            },
    {
        if !radio_enabled {
            return (Reaped::nothing(), DiscoverAction::Ignore);
        }
        let reaped = self.reap_closed_sessions_at(now);
        if self.recovery == StaleLinkRecovery::Enabled && !self.guard.admit_candidate(
            found.peer_id,
            found.strength,
            now,
        ) {
            return (reaped, DiscoverAction::Ignore);
        }
        let presence = if self.sessions.contains_key(found.peer_id) {
            SessionPresence::Present
        } else {
            SessionPresence::Absent
        };
        let cancellation = if self.guard.cancellation_recent(found.peer_id, now) {
            StaleCancellation::InFlight
        } else {
            StaleCancellation::Idle
        };
        match discover_disposition(found.link_state, presence, cancellation, self.recovery) {
            DiscoverDisposition::IgnoreOwned | DiscoverDisposition::WaitForDisconnect => {
                (reaped, DiscoverAction::Ignore)
            },
            DiscoverDisposition::CancelStale => {
                self.guard.record_stale_cancellation(found.peer_id, now);
                (reaped, DiscoverAction::CancelStale)
            },
            DiscoverDisposition::Adopt => {
                if self.registry.observe(found.peer_id, found.peripheral, found.rssi) {
                    (reaped, DiscoverAction::Sighted)
                } else {
                    (reaped, DiscoverAction::Ignore)
                }
            },
        }
    }
}

impl<P, C, K, D, T> CentralModel<P, C, K, D, T> {
    /// The central role with another session for the peer.
    pub open spec fn with_session(
        self,
        peer_id: CoreBluetoothPeerId,
        session: CentralPeerSession<C, K, D, T>,
    ) -> Self {
        CentralModel { sessions: self.sessions.insert(peer_id, session), ..self }
    }
}

/// What a connection leaves to do.
#[verifier::reject_recursive_types(K)]
pub struct ConnectStep<P, K> {
    /// What was reaped on the way.
    pub reaped: Reaped<P, K>,
    /// The connection to cancel.
    pub cancel: Option<P>,
    /// The services of the peer are to be discovered.
    pub discover_services: bool,
}

/// What an event leaves to do.
#[verifier::reject_recursive_types(K)]
pub enum EventStep<P, K> {
    /// The peer is gone: its connection is to be cancelled and its owner told.
    Gone(Finished<P, K>),
    /// The peer stays, and its owner is told where there is something to tell.
    Stays(Option<CompletionDelivery<K>>),
}

impl<P, K> EventStep<P, K> {
    /// The peer is gone.
    pub open spec fn gone<C, D, T>(
        self,
        before: CentralModel<P, C, K, D, T>,
        after: CentralModel<P, C, K, D, T>,
        peer_id: CoreBluetoothPeerId,
    ) -> bool {
        &&& self matches EventStep::Gone(finished)
        &&& finished.of(before, peer_id)
        &&& after == before.finished(peer_id)
    }

    /// Nothing happened.
    pub open spec fn idle<C, D, T>(
        self,
        before: CentralModel<P, C, K, D, T>,
        after: CentralModel<P, C, K, D, T>,
    ) -> bool {
        self == EventStep::<P, K>::Stays(None) && after == before
    }
}

impl<P, C, K, D, T> CentralState<P, C, K, D, T> {
    /// A dialed peer is connected. A connection that completes after the radio was switched off is
    /// cancelled once, by whoever still finds it registered.
    pub fn did_connect(&mut self, radio_enabled: bool, peer_id: CoreBluetoothPeerId, now: u64) -> (r:
        ConnectStep<P, K>) where D: GattInbox
        requires
            old(self).wf(),
        ensures
            final(self).wf(),
            !radio_enabled ==> {
                &&& final(self)@ == old(self)@.with_registry(old(self)@.registry.removed(peer_id))
                &&& r.cancel == old(self)@.registry.handle(peer_id)
                &&& r.reaped.is_nothing() && !r.discover_services
            },
            radio_enabled ==> {
                &&& r.reaped.of(old(self)@, now)
                &&& final(self)@ == old(self)@.reaped(r.reaped.closed@, now).state
                &&& r.cancel is None
                &&& r.discover_services == final(self)@.sessions.dom().contains(peer_id)
            },
    {
        if !radio_enabled {
            let cancel = self.registry.remove_peer(peer_id);
            return ConnectStep { reaped: Reaped::nothing(), cancel, discover_services: false };
        }
        let reaped = self.reap_closed_sessions_at(now);
        let discover_services = self.sessions.contains_key(peer_id);
        ConnectStep { reaped, cancel: None, discover_services }
    }

    /// A peer is disconnected: its stale link is gone and so is the peer. Nothing is left to cancel.
    pub fn did_disconnect(&mut self, peer_id: CoreBluetoothPeerId) -> (r: Option<
        CompletionDelivery<K>,
    >)
        requires
            old(self).wf(),
        ensures
            final(self).wf(),
            final(self)@ == (CentralModel {
                guard: old(self)@.guard.disconnected(peer_id),
                ..old(self)@.finished(peer_id)
            }),
            r == old(self)@.failure(peer_id),
    {
        self.guard.clear_stale_cancellation(peer_id);
        let finished = self.finish_peer(peer_id);
        finished.delivery
    }

    /// A dialed peer could not be connected. Nothing is left to cancel.
    pub fn did_fail_to_connect(&mut self, peer_id: CoreBluetoothPeerId) -> (r: Option<
        CompletionDelivery<K>,
    >)
        requires
            old(self).wf(),
        ensures
            final(self).wf(),
            final(self)@ == old(self)@.finished(peer_id),
            r == old(self)@.failure(peer_id),
    {
        let finished = self.finish_peer(peer_id);
        finished.delivery
    }

    /// The services of a peer are known. A peer without the service is gone, and where stale links
    /// are recovered it is not tried again soon; with the service its characteristics are next.
    pub fn did_discover_services(
        &mut self,
        peer_id: CoreBluetoothPeerId,
        failed: bool,
        service_found: bool,
        now: u64,
    ) -> (r: Option<Finished<P, K>>)
        requires
            old(self).wf(),
        ensures
            final(self).wf(),
            r is None <==> !failed && service_found,
            match r {
                None => final(self)@ == old(self)@,
                Some(finished) => {
                    &&& finished.of(old(self)@, peer_id)
                    &&& final(self)@ == if !failed && old(self)@.recovery is Enabled {
                        CentralModel {
                            guard: old(self)@.guard.missed(peer_id, now),
                            ..old(self)@.finished(peer_id)
                        }
                    } else {
                        old(self)@.finished(peer_id)
                    }
                },
            },
    {
        if failed {
            return Some(self.finish_peer(peer_id));
        }
        if service_found {
            return None;
        }
        if self.recovery == StaleLinkRecovery::Enabled {
            self.guard.record_service_miss(peer_id, now);
        }
        Some(self.finish_peer(peer_id))
    }

    /// A characteristic of a peer notifies from now on.
    pub fn did_update_notification_state(
        &mut self,
        peer_id: CoreBluetoothPeerId,
        failed: bool,
        role: Option<CharacteristicRole>,
        characteristic: K,
    ) -> (r: EventStep<P, K>) where K: Clone
        requires
            old(self).wf(),
        ensures
            final(self).wf(),
            if failed {
                r.gone(old(self)@, final(self)@, peer_id)
            } else if role == Some(CharacteristicRole::Control) && old(
                self,
            )@.sessions.dom().contains(peer_id) {
                let (session, delivery) = old(self)@.sessions[peer_id].after_native_ready(
                    characteristic,
                );
                r == EventStep::<P, K>::Stays(delivery) && final(self)@ == old(self)@.with_session(
                    peer_id,
                    session,
                )
            } else if role == Some(CharacteristicRole::ColumbaTx) && old(
                self,
            )@.sessions.dom().contains(peer_id) {
                &&& r matches EventStep::Stays(delivery)
                &&& final(self)@ == old(self)@.with_session(
                    peer_id,
                    final(self)@.sessions[peer_id],
                )
                &&& old(self)@.sessions[peer_id].subscribes(
                    final(self)@.sessions[peer_id],
                    delivery,
                )
            } else {
                r.idle(old(self)@, final(self)@)
            },
    {
        if failed {
            return EventStep::Gone(self.finish_peer(peer_id));
        }
        match role {
            Some(CharacteristicRole::Control) => {
                match self.sessions.remove(peer_id) {
                    Some(session) => {
                        let mut session = session;
                        let delivery = session.native_ready(characteristic);
                        let ghost after = session;
                        self.sessions.insert(peer_id, session);
                        assert(self@.sessions =~= old(self)@.sessions.insert(peer_id, after));
                        EventStep::Stays(delivery)
                    },
                    None => {
                        assert(self@.sessions =~= old(self)@.sessions);
                        EventStep::Stays(None)
                    },
                }
            },
            Some(CharacteristicRole::ColumbaTx) => {
                match self.sessions.remove(peer_id) {
                    Some(session) => {
                        let mut session = session;
                        let delivery = session.columba_subscribed();
                        let ghost after = session;
                        self.sessions.insert(peer_id, session);
                        assert(self@.sessions =~= old(self)@.sessions.insert(peer_id, after));
                        EventStep::Stays(delivery)
                    },
                    None => {
                        assert(self@.sessions =~= old(self)@.sessions);
                        EventStep::Stays(None)
                    },
                }
            },
            _ => EventStep::Stays(None),
        }
    }
}

/// What the characteristics of a peer leave to do.
#[verifier::reject_recursive_types(K)]
pub enum ProfileStep<P, K> {
    /// The peer is gone: its connection is to be cancelled and its owner told.
    Gone(Finished<P, K>),
    /// Nobody has a session with the peer.
    Ignore,
    /// Subscribe to the data characteristic, where there is one, and then to control.
    SubscribeNative { data: Option<K>, control: K },
    /// Read the identity and subscribe to what the peer sends.
    SubscribeColumba { identity: K, tx: K },
}

/// The peer offers the native profile, and its data characteristic, where it has one, can be
/// written to as `target` says.
pub open spec fn offers_native<K, F: Fn(&K, GattWriteMode) -> Result<
    GattWriteTarget<K>,
    MacosBleError,
>>(profile: DiscoveredProfile<K>, discover: F, target: Option<GattWriteTarget<K>>) -> bool {
    &&& profile.control is Some
    &&& match profile.data {
        Some(data) => target matches Some(target) && call_ensures(
            discover,
            (&data, GattWriteMode::WithResponse),
            Ok(target),
        ),
        None => target is None,
    }
}

/// The peer offers the complete Columba profile and not the native one, and its RX characteristic
/// can be written to as `target` says.
pub open spec fn offers_columba<K, F: Fn(&K, GattWriteMode) -> Result<
    GattWriteTarget<K>,
    MacosBleError,
>>(profile: DiscoveredProfile<K>, discover: F, target: GattWriteTarget<K>) -> bool {
    &&& profile.control is None && profile.columba_tx is Some && profile.columba_identity is Some
    &&& profile.columba_rx matches Some(rx)
    &&& call_ensures(discover, (&rx, GattWriteMode::WithoutResponse), Ok(target))
}

/// The peer offers no profile that can be used.
pub open spec fn offers_nothing<K, F: Fn(&K, GattWriteMode) -> Result<
    GattWriteTarget<K>,
    MacosBleError,
>>(profile: DiscoveredProfile<K>, discover: F, error: MacosBleError) -> bool {
    if profile.control is Some {
        profile.data matches Some(data) && call_ensures(
            discover,
            (&data, GattWriteMode::WithResponse),
            Err(error),
        )
    } else {
        ||| profile.columba_tx is None || profile.columba_identity is None
        ||| match profile.columba_rx {
            Some(rx) => call_ensures(discover, (&rx, GattWriteMode::WithoutResponse), Err(error)),
            None => true,
        }
    }
}

impl<P, C, K: Clone, D, T> CentralState<P, C, K, D, T> {
    /// The characteristics of a peer are known, unless their discovery failed. The native profile
    /// comes first; a peer with neither profile is gone. `discover` says how a characteristic can
    /// be written to.
    pub fn did_discover_characteristics<
        F: Fn(&K, GattWriteMode) -> Result<GattWriteTarget<K>, MacosBleError>,
    >(
        &mut self,
        peer_id: CoreBluetoothPeerId,
        found: Option<DiscoveredProfile<K>>,
        discover: F,
    ) -> (r: ProfileStep<P, K>)
        requires
            old(self).wf(),
            forall|k: &K, mode: GattWriteMode| call_requires(discover, (k, mode)),
        ensures
            final(self).wf(),
            match r {
                ProfileStep::Gone(finished) => {
                    &&& finished.of(old(self)@, peer_id)
                    &&& final(self)@ == old(self)@.finished(peer_id)
                    &&& match found {
                        Some(profile) => exists|error: MacosBleError|
                            offers_nothing(profile, discover, error),
                        None => true,
                    }
                },
                ProfileStep::Ignore => {
                    &&& final(self)@ == old(self)@
                    &&& !old(self)@.sessions.dom().contains(peer_id)
                    &&& found matches Some(profile)
                    &&& (exists|target: Option<GattWriteTarget<K>>|
                        offers_native(profile, discover, target)) || (exists|
                        target: GattWriteTarget<K>,
                    |
                        offers_columba(profile, discover, target))
                },
                ProfileStep::SubscribeNative { data, control } => {
                    &&& found matches Some(profile)
                    &&& old(self)@.sessions.dom().contains(peer_id)
                    &&& profile.control == Some(control)
                    &&& profile.data == data
                    &&& exists|target: Option<GattWriteTarget<K>>|
                        offers_native(profile, discover, target) && final(self)@ == old(
                            self,
                        )@.with_session(
                            peer_id,
                            old(self)@.sessions[peer_id].with_profile(
                                CentralProfile::Native { data: target },
                            ),
                        )
                },
                ProfileStep::SubscribeColumba { identity, tx } => {
                    &&& found matches Some(profile)
                    &&& old(self)@.sessions.dom().contains(peer_id)
                    &&& profile.columba_identity == Some(identity)
                    &&& profile.columba_tx matches Some(notify)
                    &&& cloned(notify, tx)
                    &&& exists|target: GattWriteTarget<K>|
                        offers_columba(profile, discover, target) && final(self)@ == old(
                            self,
                        )@.with_session(
                            peer_id,
                            old(self)@.sessions[peer_id].with_profile(
                                CentralProfile::Columba {
                                    write: target,
                                    notify,
                                    readiness:
                                        session::ColumbaReadiness::AwaitingIdentityAndSubscription,
                                },
                            ),
                        )
                },
            },
    {
        let profile = match found {
            Some(profile) => profile,
            None => {
                return ProfileStep::Gone(self.finish_peer(peer_id));
            },
        };
        let ghost offered = profile;
        match profile.control {
            Some(control) => {
                let target = match &profile.data {
                    Some(data) => match discover(data, GattWriteMode::WithResponse) {
                        Ok(target) => Some(target),
                        Err(error) => {
                            assert(offers_nothing(offered, discover, error));
                            return ProfileStep::Gone(self.finish_peer(peer_id));
                        },
                    },
                    None => None,
                };
                assert(offers_native(offered, discover, target));
                match self.sessions.remove(peer_id) {
                    Some(session) => {
                        let mut session = session;
                        session.select_native(target);
                        let ghost after = session;
                        self.sessions.insert(peer_id, session);
                        assert(self@.sessions =~= old(self)@.sessions.insert(peer_id, after));
                        ProfileStep::SubscribeNative { data: profile.data, control }
                    },
                    None => {
                        assert(self@.sessions =~= old(self)@.sessions);
                        ProfileStep::Ignore
                    },
                }
            },
            None => match (profile.columba_rx, profile.columba_tx, profile.columba_identity) {
                (Some(rx), Some(tx), Some(identity)) => {
                    let target = match discover(&rx, GattWriteMode::WithoutResponse) {
                        Ok(target) => target,
                        Err(error) => {
                            assert(offers_nothing(offered, discover, error));
                            return ProfileStep::Gone(self.finish_peer(peer_id));
                        },
                    };
                    assert(offers_columba(offered, discover, target));
                    match self.sessions.remove(peer_id) {
                        Some(session) => {
                            let mut session = session;
                            let subscribed = tx.clone();
                            session.select_columba(target, tx);
                            let ghost after = session;
                            self.sessions.insert(peer_id, session);
                            assert(self@.sessions =~= old(self)@.sessions.insert(peer_id, after));
                            ProfileStep::SubscribeColumba { identity, tx: subscribed }
                        },
                        None => {
                            assert(self@.sessions =~= old(self)@.sessions);
                            ProfileStep::Ignore
                        },
                    }
                },
                _ => {
                    assert(offers_nothing(offered, discover, MacosBleError::Closed));
                    ProfileStep::Gone(self.finish_peer(peer_id))
                },
            },
        }
    }
}

/// What a peer's value leads to: the registry buffers it while the peer waits for its session, and
/// otherwise it goes to whoever has one. A value that its owner refuses ends the session.
pub open spec fn value_taken<P, C, K: Clone, D: GattInbox, T, F: Fn(&Vec<u8>) -> Option<C>>(
    before: CentralModel<P, C, K, D, T>,
    after: CentralModel<P, C, K, D, T>,
    step: EventStep<P, K>,
    peer_id: CoreBluetoothPeerId,
    role: Option<CharacteristicRole>,
    value: Vec<u8>,
    decode: F,
) -> bool {
    let has_session = before.sessions.dom().contains(peer_id);
    match role {
        Some(CharacteristicRole::Data) | Some(CharacteristicRole::ColumbaTx) => {
            match before.registry.record(peer_id) {
                Some(k) => {
                    &&& step == EventStep::<P, K>::Stays(None)
                    &&& after == before.with_registry(
                        before.registry.with_callbacks(
                            k,
                            before.registry.restored[k].callbacks.offer_data(value@),
                        ),
                    )
                },
                None => if has_session {
                    let session = before.sessions[peer_id];
                    let inbox = session.data_tx.inbox();
                    ||| ingress::answers_push(inbox, value, true) && step
                        == EventStep::<P, K>::Stays(None) && after == before.with_session(
                        peer_id,
                        after.sessions[peer_id],
                    ) && after.sessions[peer_id].passes_on(
                        session,
                        Seq::empty(),
                        seq![Offer { value: value@, taken: true }],
                    )
                    ||| ingress::answers_push(inbox, value, false) && step.gone(
                        before,
                        after,
                        peer_id,
                    )
                } else {
                    step.idle(before, after)
                },
            }
        },
        Some(CharacteristicRole::ColumbaIdentity) => if value@.len() != 16 {
            step.gone(before, after, peer_id)
        } else if has_session {
            &&& step matches EventStep::Stays(delivery)
            &&& after == before.with_session(peer_id, after.sessions[peer_id])
            &&& exists|identity: BleIdentity|
                identity.0@ == value@ && #[trigger] before.sessions[peer_id].identifies(
                    after.sessions[peer_id],
                    identity,
                    delivery,
                )
        } else {
            step.idle(before, after)
        },
        _ => {
            ||| call_ensures(decode, (&value,), None) && step.idle(before, after)
            ||| exists|control: C|
                #![trigger call_ensures(decode, (&value,), Some(control))]
                call_ensures(decode, (&value,), Some(control)) && control_taken(
                    before,
                    after,
                    step,
                    peer_id,
                    control,
                )
        },
    }
}

/// What a peer's control message leads to.
pub open spec fn control_taken<P, C, K, D, T>(
    before: CentralModel<P, C, K, D, T>,
    after: CentralModel<P, C, K, D, T>,
    step: EventStep<P, K>,
    peer_id: CoreBluetoothPeerId,
    control: C,
) -> bool {
    match before.registry.record(peer_id) {
        Some(k) => {
            &&& step == EventStep::<P, K>::Stays(None)
            &&& after == before.with_registry(
                before.registry.with_callbacks(
                    k,
                    before.registry.restored[k].callbacks.offer_control(control),
                ),
            )
        },
        None => if before.sessions.dom().contains(peer_id) {
            let session = before.sessions[peer_id];
            exists|outcome: BoundedIngress<C>|
                {
                    &&& #[trigger] ingress::offered(session.control_tx.sender(), control, outcome)
                    &&& if outcome is Accepted {
                        &&& step == EventStep::<P, K>::Stays(None)
                        &&& after == before.with_session(peer_id, after.sessions[peer_id])
                        &&& after.sessions[peer_id].passes_on(
                            session,
                            seq![Offer { value: control, taken: true }],
                            Seq::empty(),
                        )
                    } else {
                        step.gone(before, after, peer_id)
                    }
                }
        } else {
            step.idle(before, after)
        },
    }
}

impl<P, C, K: Clone, D: GattInbox, T> CentralState<P, C, K, D, T> {
    /// A characteristic of a peer has a new value. `decode` reads a control message.
    pub fn did_update_value<F: Fn(&Vec<u8>) -> Option<C>>(
        &mut self,
        peer_id: CoreBluetoothPeerId,
        failed: bool,
        role: Option<CharacteristicRole>,
        value: Option<Vec<u8>>,
        decode: F,
    ) -> (r: EventStep<P, K>)
        requires
            old(self).wf(),
            forall|bytes: &Vec<u8>| call_requires(decode, (bytes,)),
        ensures
            final(self).wf(),
            if failed {
                r.gone(old(self)@, final(self)@, peer_id)
            } else {
                match value {
                    Some(value) => value_taken(
                        old(self)@,
                        final(self)@,
                        r,
                        peer_id,
                        role,
                        value,
                        decode,
                    ),
                    None => r.idle(old(self)@, final(self)@),
                }
            },
    {
        if failed {
            return EventStep::Gone(self.finish_peer(peer_id));
        }
        let value = match value {
            Some(value) => value,
            None => {
                return EventStep::Stays(None);
            },
        };
        match role {
            Some(CharacteristicRole::Data) | Some(CharacteristicRole::ColumbaTx) => {
                let data = match self.registry.buffer_restored_data(peer_id, value) {
                    RestoredBufferResult::NotRestored(data) => data,
                    _ => {
                        return EventStep::Stays(None);
                    },
                };
                let mut session = match self.sessions.remove(peer_id) {
                    Some(session) => session,
                    None => {
                        assert(self@.sessions =~= old(self)@.sessions);
                        return EventStep::Stays(None);
                    },
                };
                let taken = session.enqueue_data(data);
                let ghost after = session;
                self.sessions.insert(peer_id, session);
                assert(self@.sessions =~= old(self)@.sessions.insert(peer_id, after));
                if taken {
                    EventStep::Stays(None)
                } else {
                    let finished = self.finish_peer(peer_id);
                    assert(self@.sessions =~= old(self)@.sessions.remove(peer_id));
                    EventStep::Gone(finished)
                }
            },
            Some(CharacteristicRole::ColumbaIdentity) => {
                let identity = match BleIdentity::from_slice(value.as_slice()) {
                    Some(identity) => identity,
                    None => {
                        return EventStep::Gone(self.finish_peer(peer_id));
                    },
                };
                match self.sessions.remove(peer_id) {
                    Some(session) => {
                        let mut session = session;
                        let delivery = session.columba_identity(identity);
                        let ghost after = session;
                        self.sessions.insert(peer_id, session);
                        assert(self@.sessions =~= old(self)@.sessions.insert(peer_id, after));
                        EventStep::Stays(delivery)
                    },
                    None => {
                        assert(self@.sessions =~= old(self)@.sessions);
                        EventStep::Stays(None)
                    },
                }
            },
            _ => {
                let control = match decode(&value) {
                    Some(control) => control,
                    None => {
                        return EventStep::Stays(None);
                    },
                };
                let ghost decoded = control;
                let control = match self.registry.buffer_restored_control(peer_id, control) {
                    RestoredBufferResult::NotRestored(control) => control,
                    _ => {
                        assert(control_taken(
                            old(self)@,
                            self@,
                            EventStep::<P, K>::Stays(None),
                            peer_id,
                            decoded,
                        ));
                        return EventStep::Stays(None);
                    },
                };
                let mut session = match self.sessions.remove(peer_id) {
                    Some(session) => session,
                    None => {
                        assert(self@.sessions =~= old(self)@.sessions);
                        let step = EventStep::Stays(None);
                        assert(control_taken(old(self)@, self@, step, peer_id, decoded));
                        return step;
                    },
                };
                let outcome = session.enqueue_control(control);
                let ghost after = session;
                let ghost shown = outcome;
                self.sessions.insert(peer_id, session);
                assert(self@.sessions =~= old(self)@.sessions.insert(peer_id, after));
                let step = match outcome {
                    BoundedIngress::Accepted => EventStep::Stays(None),
                    _ => {
                        let finished = self.finish_peer(peer_id);
                        assert(self@.sessions =~= old(self)@.sessions.remove(peer_id));
                        EventStep::Gone(finished)
                    },
                };
                assert(ingress::offered(
                    old(self)@.sessions[peer_id].control_tx.sender(),
                    decoded,
                    shown,
                ));
                assert(control_taken(old(self)@, self@, step, peer_id, decoded));
                step
            },
        }
    }
}

impl<P, C, K, D, T> CentralState<P, C, K, D, T> {
    /// The peer answered a write. The report of the write that was outstanding for the
    /// characteristic is handed out.
    pub fn did_write_value(
        &mut self,
        peer_id: CoreBluetoothPeerId,
        characteristic: &K,
        failed: bool,
    ) -> (r: Option<WriteReply<T>>) where K: Eq
        requires
            old(self).wf(),
            laws_eq::obeys_concrete_eq::<K>(),
        ensures
            final(self).wf(),
            if old(self)@.sessions.dom().contains(peer_id) && (old(
                self,
            )@.sessions[peer_id].acknowledged_write matches Some(pending) && pending.characteristic
                == *characteristic) {
                let session = old(self)@.sessions[peer_id];
                &&& r == Some(
                    WriteReply {
                        reply: session.acknowledged_write->0.reply,
                        result: if failed {
                            Err(MacosBleError::GattWriteFailed)
                        } else {
                            Ok(())
                        },
                    },
                )
                &&& final(self)@ == old(self)@.with_session(
                    peer_id,
                    CentralPeerSession { acknowledged_write: None, ..session },
                )
            } else {
                r is None && final(self)@ == old(self)@
            },
    {
        let result = if failed {
            Err(MacosBleError::GattWriteFailed)
        } else {
            Ok(())
        };
        match self.sessions.remove(peer_id) {
            Some(session) => {
                let mut session = session;
                let report = session.finish_acknowledged_write(characteristic, result);
                let ghost after = session;
                self.sessions.insert(peer_id, session);
                proof {
                    assert(self@.sessions =~= old(self)@.sessions.insert(peer_id, after));
                    if after == old(self)@.sessions[peer_id] {
                        assert(self@.sessions =~= old(self)@.sessions);
                    }
                }
                report
            },
            None => {
                assert(self@.sessions =~= old(self)@.sessions);
                None
            },
        }
    }

    /// What a write of the peer's session asks of the peripheral. Without a session, or with the
    /// radio off, the write is refused as closed.
    pub fn submit_write(
        &mut self,
        radio_enabled: bool,
        peer_id: CoreBluetoothPeerId,
        request: GattWriteRequest<K, T>,
        can_send_without_response: bool,
    ) -> (r: WriteStep<K, T>) where K: Clone
        requires
            old(self).wf(),
        ensures
            final(self).wf(),
            if radio_enabled && old(self)@.sessions.dom().contains(peer_id) {
                &&& final(self)@ == old(self)@.with_session(
                    peer_id,
                    final(self)@.sessions[peer_id],
                )
                &&& old(self)@.sessions[peer_id].submits(
                    final(self)@.sessions[peer_id],
                    request,
                    can_send_without_response,
                    r,
                )
            } else {
                &&& final(self)@ == old(self)@
                &&& r == WriteStep::<K, T>::Refused {
                    report: WriteReply { reply: request.reply, result: Err(MacosBleError::Closed) },
                }
            },
    {
        if !radio_enabled {
            return WriteStep::Refused {
                report: WriteReply { reply: request.reply, result: Err(MacosBleError::Closed) },
            };
        }
        match self.sessions.remove(peer_id) {
            Some(session) => {
                let mut session = session;
                let step = session.submit_write(request, can_send_without_response);
                let ghost after = session;
                self.sessions.insert(peer_id, session);
                assert(self@.sessions =~= old(self)@.sessions.insert(peer_id, after));
                step
            },
            None => {
                assert(self@.sessions =~= old(self)@.sessions);
                WriteStep::Refused {
                    report: WriteReply { reply: request.reply, result: Err(MacosBleError::Closed) },
                }
            },
        }
    }

    /// The peer's peripheral may take a write without a response again. `receiver_closed` says
    /// whether nobody waits for a report any more.
    pub fn drain_unacknowledged_write<F: Fn(&T) -> bool>(
        &mut self,
        peer_id: CoreBluetoothPeerId,
        receiver_closed: F,
        can_send_without_response: bool,
    ) -> (r: WriteStep<K, T>)
        requires
            old(self).wf(),
            forall|reply: &T| call_requires(receiver_closed, (reply,)),
        ensures
            final(self).wf(),
            if old(self)@.sessions.dom().contains(peer_id) {
                &&& final(self)@ == old(self)@.with_session(
                    peer_id,
                    final(self)@.sessions[peer_id],
                )
                &&& old(self)@.sessions[peer_id].drains(
                    final(self)@.sessions[peer_id],
                    receiver_closed,
                    can_send_without_response,
                    r,
                )
            } else {
                final(self)@ == old(self)@ && r == WriteStep::<K, T>::Idle
            },
    {
        match self.sessions.remove(peer_id) {
            Some(session) => {
                let mut session = session;
                let step = session.drain_unacknowledged_write(
                    receiver_closed,
                    can_send_without_response,
                );
                let ghost after = session;
                self.sessions.insert(peer_id, session);
                assert(self@.sessions =~= old(self)@.sessions.insert(peer_id, after));
                step
            },
            None => {
                assert(self@.sessions =~= old(self)@.sessions);
                WriteStep::Idle
            },
        }
    }
}

} // verus!
