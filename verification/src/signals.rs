//! What the two CoreBluetooth managers report of their startup.

use crate::error::MacosBleError;
use tokio::sync::watch;
use vstd::prelude::*;

verus! {

/// The writing side of a watched value.
#[verifier::external_type_specification]
#[verifier::external_body]
#[verifier::reject_recursive_types(T)]
pub struct ExWatchSender<T>(tokio::sync::watch::Sender<T>);

/// The reading side of a watched value.
#[verifier::external_type_specification]
#[verifier::external_body]
#[verifier::reject_recursive_types(T)]
pub struct ExWatchReceiver<T>(tokio::sync::watch::Receiver<T>);

/// How far the GATT service is published.
#[derive(Clone, Copy, Debug, PartialEq, Eq, Structural)]
pub enum PublicationState {
    Waiting,
    Published,
    Failed,
}

/// How far the L2CAP listener is published, and on which PSM.
#[derive(Clone, Copy, Debug, PartialEq, Eq, Structural)]
pub enum L2capPublicationState {
    Waiting,
    Published(u16),
    Failed,
}

/// What the managers have reported.
#[derive(Clone, Copy, Debug, PartialEq, Eq, Structural)]
pub struct ManagerSignals {
    pub central_powered_generation: u64,
    pub gatt: PublicationState,
    pub l2cap: L2capPublicationState,
}

/// One report of a manager.
#[derive(Clone, Copy, Debug, PartialEq, Eq, Structural)]
pub enum ManagerSignal {
    CentralPowered,
    GattServicePublished,
    GattServicePublishFailed,
    L2capPublished(u16),
    L2capPublishFailed,
}

impl ManagerSignals {
    /// Nothing has been reported.
    pub open spec fn waiting() -> Self {
        ManagerSignals {
            central_powered_generation: 0,
            gatt: PublicationState::Waiting,
            l2cap: L2capPublicationState::Waiting,
        }
    }

    /// What is reported after one more signal. The generation wraps; a failure is never taken
    /// back.
    pub open spec fn after(self, signal: ManagerSignal) -> Self {
        match signal {
            ManagerSignal::CentralPowered => ManagerSignals {
                central_powered_generation: if self.central_powered_generation == u64::MAX {
                    0
                } else {
                    (self.central_powered_generation + 1) as u64
                },
                ..self
            },
            ManagerSignal::GattServicePublished => if self.gatt == PublicationState::Failed {
                self
            } else {
                ManagerSignals { gatt: PublicationState::Published, ..self }
            },
            ManagerSignal::GattServicePublishFailed => ManagerSignals {
                gatt: PublicationState::Failed,
                ..self
            },
            ManagerSignal::L2capPublished(psm) => if self.l2cap == L2capPublicationState::Failed {
                self
            } else {
                ManagerSignals { l2cap: L2capPublicationState::Published(psm), ..self }
            },
            ManagerSignal::L2capPublishFailed => ManagerSignals {
                l2cap: L2capPublicationState::Failed,
                ..self
            },
        }
    }

    /// What is reported after the signals in turn.
    pub open spec fn after_all(self, signals: Seq<ManagerSignal>) -> Self
        decreases signals.len(),
    {
        if signals.len() == 0 {
            self
        } else {
            self.after_all(signals.drop_last()).after(signals.last())
        }
    }

    /// A publication failed.
    pub open spec fn failed(self) -> bool {
        self.gatt == PublicationState::Failed || self.l2cap == L2capPublicationState::Failed
    }

    /// The PSM of a complete startup.
    pub open spec fn ready_psm(self) -> Option<u16> {
        match self.l2cap {
            L2capPublicationState::Published(psm) => if self.central_powered_generation != 0
                && self.gatt == PublicationState::Published {
                Some(psm)
            } else {
                None
            },
            _ => None,
        }
    }

    /// Nothing has been reported.
    pub fn new() -> (r: Self)
        ensures
            r == Self::waiting(),
    {
        ManagerSignals {
            central_powered_generation: 0,
            gatt: PublicationState::Waiting,
            l2cap: L2capPublicationState::Waiting,
        }
    }

    /// Takes in one more signal.
    pub fn apply(&mut self, signal: ManagerSignal)
        ensures
            *final(self) == old(self).after(signal),
    {
        match signal {
            ManagerSignal::CentralPowered => {
                self.central_powered_generation = self.central_powered_generation.wrapping_add(1);
            },
            ManagerSignal::GattServicePublished => {
                if self.gatt != PublicationState::Failed {
                    self.gatt = PublicationState::Published;
                }
            },
            ManagerSignal::GattServicePublishFailed => {
                self.gatt = PublicationState::Failed;
            },
            ManagerSignal::L2capPublished(psm) => {
                if self.l2cap != L2capPublicationState::Failed {
                    self.l2cap = L2capPublicationState::Published(psm);
                }
            },
            ManagerSignal::L2capPublishFailed => {
                self.l2cap = L2capPublicationState::Failed;
            },
        }
    }

    /// Once a publication has failed, no later signal makes the startup complete.
    pub proof fn law_failures_are_sticky(self, signals: Seq<ManagerSignal>)
        requires
            self.failed(),
        ensures
            self.after_all(signals).failed(),
            self.gatt == PublicationState::Failed ==> self.after_all(signals).gatt
                == PublicationState::Failed,
            self.l2cap == L2capPublicationState::Failed ==> self.after_all(signals).l2cap
                == L2capPublicationState::Failed,
        decreases signals.len(),
    {
        if signals.len() > 0 {
            self.law_failures_are_sticky(signals.drop_last());
        }
    }

    /// A startup is complete only after the central was powered, the GATT service was published
    /// and the L2CAP listener was published, each at least once.
    pub proof fn law_readiness_needs_every_signal(signals: Seq<ManagerSignal>)
        requires
            Self::waiting().after_all(signals).ready_psm() is Some,
        ensures
            signals.contains(ManagerSignal::CentralPowered),
            signals.contains(ManagerSignal::GattServicePublished),
            signals.contains(
                ManagerSignal::L2capPublished(Self::waiting().after_all(signals).ready_psm()->0),
            ),
    {
        Self::lemma_where_signals_come_from(signals);
    }

    proof fn lemma_where_signals_come_from(signals: Seq<ManagerSignal>)
        ensures
            ({
                let now = Self::waiting().after_all(signals);
                &&& now.central_powered_generation != 0 ==> signals.contains(
                    ManagerSignal::CentralPowered,
                )
                &&& now.gatt == PublicationState::Published ==> signals.contains(
                    ManagerSignal::GattServicePublished,
                )
                &&& now.l2cap matches L2capPublicationState::Published(psm) ==> signals.contains(
                    ManagerSignal::L2capPublished(psm),
                )
            }),
        decreases signals.len(),
    {
        if signals.len() > 0 {
            let earlier = signals.drop_last();
            Self::lemma_where_signals_come_from(earlier);
            assert forall|signal: ManagerSignal| earlier.contains(signal) implies signals.contains(
                signal,
            ) by {
                let i = earlier.index_of(signal);
                assert(signals[i] == signal);
            }
            assert(signals[signals.len() - 1] == signals.last());
            assert(signals.contains(signals.last()));
        }
    }
}

/// `tokio::sync::watch::channel`: a sender and a receiver of one watched value, which is `signals`
/// at first. What the value is later depends on the senders, so nothing is promised of it.
#[verifier::external_body]
fn watch_signals(signals: ManagerSignals) -> (r: (
    watch::Sender<ManagerSignals>,
    watch::Receiver<ManagerSignals>,
)) {
    watch::channel(signals)
}

/// `tokio::sync::watch::Sender::send_modify`: applies the signal to the watched value in place and
/// wakes the receivers. The value is shared, so nothing is promised of it.
#[verifier::external_body]
fn modify_signals(sender: &watch::Sender<ManagerSignals>, signal: ManagerSignal) {
    sender.send_modify(|signals| signals.apply(signal));
}

/// `tokio::sync::watch::Sender::clone`: another sender of the same watched value, of which nothing
/// is promised.
#[verifier::external_body]
fn clone_sender(sender: &watch::Sender<ManagerSignals>) -> (r: watch::Sender<ManagerSignals>) {
    sender.clone()
}

/// Reports what the managers say to whoever watches. It remembers what it reported.
pub struct ManagerSignalSender {
    sender: watch::Sender<ManagerSignals>,
    reports: Ghost<Seq<ManagerSignal>>,
}

impl Clone for ManagerSignalSender {
    fn clone(&self) -> (r: Self)
        ensures
            r.shares(*self),
            r.reports().len() == 0,
    {
        ManagerSignalSender { sender: clone_sender(&self.sender), reports: Ghost(Seq::empty()) }
    }
}

impl ManagerSignalSender {
    /// Everything that this sender reported, in its order.
    pub closed spec fn reports(self) -> Seq<ManagerSignal> {
        self.reports@
    }

    /// The signal was applied to the value that this sender writes to.
    pub closed spec fn applied(self, signal: ManagerSignal) -> bool {
        call_ensures(modify_signals, (&self.sender, signal), ())
    }

    /// Both senders are the same handle.
    pub closed spec fn same_handle(self, other: Self) -> bool {
        self.sender == other.sender
    }

    /// This is the earlier sender, which has since reported the signal and nothing else.
    pub open spec fn reported(self, earlier: Self, signal: ManagerSignal) -> bool {
        &&& self.same_handle(earlier)
        &&& self.applied(signal)
        &&& self.reports() == earlier.reports().push(signal)
    }

    /// The sender was made of the other one, and writes to the same watched value.
    pub closed spec fn shares(self, other: Self) -> bool {
        call_ensures(clone_sender, (&other.sender,), self.sender)
    }

    /// The sender and the receiver were made together, for a watched value that began as `first`.
    pub closed spec fn feeds(
        self,
        receiver: watch::Receiver<ManagerSignals>,
        first: ManagerSignals,
    ) -> bool {
        call_ensures(watch_signals, (first,), (self.sender, receiver))
    }

    fn report(&mut self, signal: ManagerSignal)
        ensures
            final(self).reported(*old(self), signal),
    {
        modify_signals(&self.sender, signal);
        self.reports = Ghost(self.reports@.push(signal));
    }

    /// The central manager is powered, once more.
    pub fn central_powered(&mut self)
        ensures
            final(self).reported(*old(self), ManagerSignal::CentralPowered),
    {
        self.report(ManagerSignal::CentralPowered);
    }

    /// The GATT service is published.
    pub fn gatt_service_published(&mut self)
        ensures
            final(self).reported(*old(self), ManagerSignal::GattServicePublished),
    {
        self.report(ManagerSignal::GattServicePublished);
    }

    /// The GATT service was not published.
    pub fn gatt_service_publish_failed(&mut self)
        ensures
            final(self).reported(*old(self), ManagerSignal::GattServicePublishFailed),
    {
        self.report(ManagerSignal::GattServicePublishFailed);
    }

    /// The L2CAP listener is published on the PSM.
    pub fn l2cap_published(&mut self, psm: u16)
        ensures
            final(self).reported(*old(self), ManagerSignal::L2capPublished(psm)),
    {
        self.report(ManagerSignal::L2capPublished(psm));
    }

    /// The L2CAP listener was not published.
    pub fn l2cap_publish_failed(&mut self)
        ensures
            final(self).reported(*old(self), ManagerSignal::L2capPublishFailed),
    {
        self.report(ManagerSignal::L2capPublishFailed);
    }
}

/// A sender of manager signals and the receiver that watches them, before anything was reported.
pub fn manager_signal_channel() -> (r: (ManagerSignalSender, watch::Receiver<ManagerSignals>))
    ensures
        r.0.feeds(r.1, ManagerSignals::waiting()),
        r.0.reports().len() == 0,
{
    let (sender, receiver) = watch_signals(ManagerSignals::new());
    (ManagerSignalSender { sender, reports: Ghost(Seq::empty()) }, receiver)
}

/// The PSM of a complete startup, nothing while the startup goes on, or an error where it failed.
/// `psm` turns the published number into a PSM, or turns it down.
pub fn manager_readiness<S, F: Fn(u16) -> Option<S>>(signals: ManagerSignals, psm: F) -> (r: Result<
    Option<S>,
    MacosBleError,
>)
    requires
        forall|raw: u16| call_requires(psm, (raw,)),
    ensures
        match r {
            Ok(Some(ready)) => !signals.failed() && (signals.ready_psm() matches Some(raw)
                && call_ensures(psm, (raw,), Some(ready))),
            Ok(None) => !signals.failed() && signals.ready_psm() is None,
            Err(error) => error == MacosBleError::PublishFailed && (signals.failed() || (
            signals.ready_psm() matches Some(raw) && call_ensures(psm, (raw,), None))),
        },
{
    if signals.gatt == PublicationState::Failed {
        return Err(MacosBleError::PublishFailed);
    }
    if signals.l2cap == L2capPublicationState::Failed {
        return Err(MacosBleError::PublishFailed);
    }
    let raw: u16 = match signals.l2cap {
        L2capPublicationState::Published(raw) => raw,
        _ => {
            return Ok(None);
        },
    };
    if signals.central_powered_generation == 0 || signals.gatt != PublicationState::Published {
        return Ok(None);
    }
    match psm(raw) {
        Some(ready) => Ok(Some(ready)),
        None => Err(MacosBleError::PublishFailed),
    }
}

} // verus!
