//! Channels into and out of the serial Bluetooth queue.

use tokio::sync::{mpsc, oneshot};
use vstd::prelude::*;

verus! {

/// A sender of a bounded channel.
#[verifier::external_type_specification]
#[verifier::external_body]
#[verifier::reject_recursive_types(T)]
pub struct ExMpscSender<T>(tokio::sync::mpsc::Sender<T>);

/// A sender of a single value.
#[verifier::external_type_specification]
#[verifier::external_body]
#[verifier::reject_recursive_types(T)]
pub struct ExOneshotSender<T>(tokio::sync::oneshot::Sender<T>);

/// What became of a value offered to a bounded channel.
#[derive(Debug, PartialEq, Eq)]
pub enum BoundedIngress<T> {
    Accepted,
    Full(T),
    Closed(T),
}

impl<T> BoundedIngress<T> {
    /// The value is either in the channel or handed back as it was.
    pub open spec fn accounts_for(self, value: T) -> bool {
        match self {
            BoundedIngress::Accepted => true,
            BoundedIngress::Full(refused) => refused == value,
            BoundedIngress::Closed(refused) => refused == value,
        }
    }
}

/// `tokio::sync::mpsc::Sender::try_send`: the value goes into the channel, or the error carries it
/// back. Which of the three happens depends on the receiving side and is left open.
#[verifier::external_body]
fn try_send<T>(sender: &mpsc::Sender<T>, value: T) -> (r: BoundedIngress<T>)
    ensures
        r.accounts_for(value),
{
    match sender.try_send(value) {
        Ok(()) => BoundedIngress::Accepted,
        Err(mpsc::error::TrySendError::Full(value)) => BoundedIngress::Full(value),
        Err(mpsc::error::TrySendError::Closed(value)) => BoundedIngress::Closed(value),
    }
}

/// `tokio::sync::mpsc::Sender::is_closed`: whether the receiving side is gone at this moment, of
/// which nothing is promised.
#[verifier::external_body]
fn sender_is_closed<T>(sender: &mpsc::Sender<T>) -> (r: bool) {
    sender.is_closed()
}

/// `tokio::sync::oneshot::Sender::send`: the value goes to the receiver, or it comes back where
/// the receiver is gone. Which of the two happens is left open.
#[verifier::external_body]
fn send_once<T>(sender: oneshot::Sender<T>, value: T) -> (r: Result<(), T>)
    ensures
        r matches Err(refused) ==> refused == value,
{
    sender.send(value)
}

/// `tokio::sync::oneshot::Sender::is_closed`: whether the receiver is gone at this moment, of which
/// nothing is promised.
#[verifier::external_body]
fn waiter_is_closed<T>(sender: &oneshot::Sender<T>) -> (r: bool) {
    sender.is_closed()
}

/// The value was offered to the channel, and this became of it.
pub closed spec fn offered<T>(sender: mpsc::Sender<T>, value: T, outcome: BoundedIngress<T>) -> bool {
    call_ensures(try_send::<T>, (&sender, value), outcome)
}

/// The channel was asked whether it is closed, and this is what it said.
pub closed spec fn asked_closed<T>(sender: mpsc::Sender<T>, closed: bool) -> bool {
    call_ensures(sender_is_closed::<T>, (&sender,), closed)
}

/// The value was sent to whoever waits at the other end, and this became of it.
pub closed spec fn told<T>(sender: oneshot::Sender<T>, value: T, outcome: Result<(), T>) -> bool {
    call_ensures(send_once::<T>, (sender, value), outcome)
}

/// It was asked whether anybody still waits at the other end, and this is what came back.
pub closed spec fn asked_gone<T>(sender: oneshot::Sender<T>, gone: bool) -> bool {
    call_ensures(waiter_is_closed::<T>, (&sender,), gone)
}

/// Nobody waits at the other end of the sender any more.
pub fn has_given_up<T>(sender: &oneshot::Sender<T>) -> (r: bool)
    ensures
        asked_gone(*sender, r),
{
    waiter_is_closed(sender)
}

/// Offers a value to a bounded channel without waiting. A refused value is handed back.
pub fn try_bounded_ingress<T>(sender: &mpsc::Sender<T>, value: T) -> (r: BoundedIngress<T>)
    ensures
        offered(*sender, value, r),
        r.accounts_for(value),
{
    try_send(sender, value)
}

/// Answers whoever waits at the other end of the sender. A value that nobody waits for comes back.
pub fn answer<T>(sender: oneshot::Sender<T>, value: T) -> (r: Result<(), T>)
    ensures
        told(sender, value, r),
        r matches Err(refused) ==> refused == value,
{
    send_once(sender, value)
}

/// Where a session puts the fragments that its peer sends.
pub trait GattInbox: Sized {
    /// Offers a fragment. Says whether it was taken.
    fn try_push(&self, fragment: Vec<u8>) -> bool;

    /// Nobody will read another fragment.
    fn is_closed(&self) -> bool;
}

impl GattInbox for mpsc::Sender<Vec<u8>> {
    fn try_push(&self, fragment: Vec<u8>) -> (r: bool)
        ensures
            exists|outcome: BoundedIngress<Vec<u8>>| #[trigger]
                offered(*self, fragment, outcome) && r == (outcome is Accepted),
    {
        match try_bounded_ingress(self, fragment) {
            BoundedIngress::Accepted => true,
            _ => false,
        }
    }

    fn is_closed(&self) -> (r: bool)
        ensures
            asked_closed(*self, r),
    {
        sender_is_closed(self)
    }
}

/// The inbox may answer so when it is asked whether it is closed.
pub open spec fn reports_closed<D: GattInbox>(inbox: D, closed: bool) -> bool {
    call_ensures(D::is_closed, (&inbox,), closed)
}

/// The inbox may answer so when the fragment is offered to it.
pub open spec fn answers_push<D: GattInbox>(inbox: D, fragment: Vec<u8>, taken: bool) -> bool {
    call_ensures(D::try_push, (&inbox, fragment), taken)
}

/// One value that was offered, and whether it was taken.
pub struct Offer<T> {
    pub value: T,
    pub taken: bool,
}

/// The offers of the values, all of them taken.
pub open spec fn all_taken<T>(values: Seq<T>) -> Seq<Offer<T>> {
    values.map_values(|value: T| Offer { value, taken: true })
}

/// The offers of values of which the last one was refused.
pub open spec fn last_refused<T>(values: Seq<T>) -> Seq<Offer<T>> {
    all_taken(values.drop_last()).push(Offer { value: values.last(), taken: false })
}

/// The values that were taken, of those that were offered.
pub open spec fn taken_values<T>(offers: Seq<Offer<T>>) -> Seq<T>
    decreases offers.len(),
{
    if offers.len() == 0 {
        Seq::empty()
    } else {
        let earlier = taken_values(offers.drop_last());
        if offers.last().taken {
            earlier.push(offers.last().value)
        } else {
            earlier
        }
    }
}

/// The sending side of a bounded channel. It remembers what was offered through it.
#[verifier::reject_recursive_types(T)]
pub struct BoundedQueue<T> {
    sender: mpsc::Sender<T>,
    offers: Ghost<Seq<Offer<T>>>,
}

impl<T> BoundedQueue<T> {
    /// The channel behind the queue.
    pub closed spec fn sender(self) -> mpsc::Sender<T> {
        self.sender
    }

    /// Everything that was offered, in its order.
    pub closed spec fn offers(self) -> Seq<Offer<T>> {
        self.offers@
    }

    /// This is the earlier queue, to which more was offered since.
    pub open spec fn extends(self, earlier: Self, more: Seq<Offer<T>>) -> bool {
        self.sender() == earlier.sender() && self.offers() == earlier.offers() + more
    }

    /// A queue into the channel, to which nothing was offered.
    pub fn new(sender: mpsc::Sender<T>) -> (r: Self)
        ensures
            r.sender() == sender,
            r.offers().len() == 0,
    {
        BoundedQueue { sender, offers: Ghost(Seq::empty()) }
    }

    /// Offers a value without waiting. A refused one is handed back.
    pub fn offer(&mut self, value: T) -> (r: BoundedIngress<T>)
        ensures
            offered(old(self).sender(), value, r),
            r.accounts_for(value),
            final(self).extends(*old(self), seq![Offer { value, taken: r is Accepted }]),
    {
        let ghost came = value;
        let outcome = try_bounded_ingress(&self.sender, value);
        self.offers = Ghost(self.offers@.push(Offer { value: came, taken: outcome is Accepted }));
        assert(self.offers() =~= old(self).offers() + seq![
            Offer { value: came, taken: outcome is Accepted },
        ]);
        outcome
    }
}

/// The queue of a session's fragments. It remembers what was offered to it.
pub struct FragmentQueue<D> {
    inbox: D,
    offers: Ghost<Seq<Offer<Seq<u8>>>>,
}

impl<D> FragmentQueue<D> {
    /// The inbox behind the queue.
    pub closed spec fn inbox(self) -> D {
        self.inbox
    }

    /// Everything that was offered, in its order.
    pub closed spec fn offers(self) -> Seq<Offer<Seq<u8>>> {
        self.offers@
    }

    /// This is the earlier queue, to which more was offered since.
    pub open spec fn extends(self, earlier: Self, more: Seq<Offer<Seq<u8>>>) -> bool {
        self.inbox() == earlier.inbox() && self.offers() == earlier.offers() + more
    }

    /// A queue into the inbox, to which nothing was offered.
    pub fn new(inbox: D) -> (r: Self)
        ensures
            r.inbox() == inbox,
            r.offers().len() == 0,
    {
        FragmentQueue { inbox, offers: Ghost(Seq::empty()) }
    }
}

impl<D: GattInbox> FragmentQueue<D> {
    /// Offers a fragment. Says whether it was taken.
    pub fn offer(&mut self, fragment: Vec<u8>) -> (r: bool)
        ensures
            answers_push(old(self).inbox(), fragment, r),
            final(self).extends(*old(self), seq![Offer { value: fragment@, taken: r }]),
    {
        let ghost value = fragment@;
        let taken = self.inbox.try_push(fragment);
        self.offers = Ghost(self.offers@.push(Offer { value, taken }));
        assert(self.offers() =~= old(self).offers() + seq![Offer { value, taken }]);
        taken
    }

    /// Nobody will read another fragment.
    pub fn is_closed(&self) -> (r: bool)
        ensures
            reports_closed(self.inbox(), r),
    {
        self.inbox.is_closed()
    }
}

} // verus!
