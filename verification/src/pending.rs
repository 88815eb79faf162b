//! What is pending of one peer's L2CAP channels.

use crate::ingress;
use crate::ingress::{answer, has_given_up};
use std::collections::VecDeque;
use tokio::sync::oneshot;
use vstd::prelude::*;

verus! {

/// How many wait for a channel of one peer at most.
pub const MAX_WAITERS: usize = 4;

/// The items that are to be kept.
pub open spec fn selected<A>(items: Seq<A>, keep: Seq<bool>) -> Seq<A>
    decreases items.len(),
{
    if items.len() == 0 {
        Seq::empty()
    } else if keep[items.len() - 1] {
        selected(items.drop_last(), keep).push(items.last())
    } else {
        selected(items.drop_last(), keep)
    }
}

/// The verdicts are what was said of the items: what is closed is not to be kept.
pub open spec fn judges<A>(
    items: Seq<A>,
    says_closed: spec_fn(A, bool) -> bool,
    keep: Seq<bool>,
) -> bool {
    &&& keep.len() == items.len()
    &&& forall|i: int| 0 <= i < items.len() ==> says_closed(items[i], !(#[trigger] keep[i]))
}

/// What is left of the items once the closed ones are gone, in their order.
pub open spec fn drops_closed<A>(
    before: Seq<A>,
    after: Seq<A>,
    says_closed: spec_fn(A, bool) -> bool,
) -> bool {
    exists|keep: Seq<bool>| #[trigger]
        judges(before, says_closed, keep) && after == selected(before, keep)
}

proof fn lemma_selected_step<A>(items: Seq<A>, keep: Seq<bool>, n: int, verdict: bool)
    requires
        0 <= n < items.len(),
        keep.len() == n,
    ensures
        selected(items.take(n + 1), keep.push(verdict)) == if verdict {
            selected(items.take(n), keep).push(items[n])
        } else {
            selected(items.take(n), keep)
        },
{
    assert(items.take(n + 1).drop_last() =~= items.take(n));
    lemma_selected_prefix(items.take(n), keep, keep.push(verdict));
}

proof fn lemma_selected_prefix<A>(items: Seq<A>, one: Seq<bool>, other: Seq<bool>)
    requires
        forall|i: int| 0 <= i < items.len() ==> one[i] == other[i],
    ensures
        selected(items, one) == selected(items, other),
    decreases items.len(),
{
    if items.len() > 0 {
        lemma_selected_prefix(items.drop_last(), one, other);
    }
}

proof fn lemma_selected_len<A>(items: Seq<A>, keep: Seq<bool>)
    ensures
        selected(items, keep).len() <= items.len(),
    decreases items.len(),
{
    if items.len() > 0 {
        lemma_selected_len(items.drop_last(), keep);
    }
}

/// What a test says of an item.
spec fn said_by<A, F: Fn(&A) -> bool>(closed: F) -> spec_fn(A, bool) -> bool {
    |item: A, verdict: bool| call_ensures(closed, (&item,), verdict)
}

/// Drops the closed items and keeps the others in their order.
fn drop_closed<A, F: Fn(&A) -> bool>(items: VecDeque<A>, closed: F) -> (r: VecDeque<A>)
    requires
        forall|item: &A| call_requires(closed, (item,)),
    ensures
        drops_closed(items@, r@, said_by(closed)),
        r@.len() <= items@.len(),
{
    let ghost all = items@;
    let ghost mut keep: Seq<bool> = Seq::empty();
    let mut rest = items;
    let mut live: VecDeque<A> = VecDeque::new();
    assert(all.take(0) =~= Seq::<A>::empty());
    while rest.len() > 0
        invariant
            forall|item: &A| call_requires(closed, (item,)),
            keep.len() <= all.len(),
            rest@ == all.skip(keep.len() as int),
            judges(all.take(keep.len() as int), said_by(closed), keep),
            live@ == selected(all.take(keep.len() as int), keep),
        decreases rest@.len(),
    {
        if let Some(item) = rest.pop_front() {
            let ghost n = keep.len() as int;
            assert(item == all[n]);
            assert(rest@ =~= all.skip(n + 1));
            let gone = closed(&item);
            proof {
                let verdict = !gone;
                let next = keep.push(verdict);
                lemma_selected_step(all, keep, n, verdict);
                assert forall|i: int| 0 <= i < n + 1 implies said_by(closed)(
                    all.take(n + 1)[i],
                    !(#[trigger] next[i]),
                ) by {
                    if i < n {
                        assert(all.take(n)[i] == all[i]);
                        assert(keep[i] == next[i]);
                    }
                }
                keep = next;
            }
            if !gone {
                live.push_back(item);
            }
        }
    }
    proof {
        assert(all.take(keep.len() as int) =~= all);
        lemma_selected_len(all, keep);
    }
    live
}

proof fn lemma_drops_closed_as_said<A>(
    before: Seq<A>,
    after: Seq<A>,
    one: spec_fn(A, bool) -> bool,
    other: spec_fn(A, bool) -> bool,
)
    requires
        drops_closed(before, after, one),
        forall|item: A, verdict: bool| #[trigger] one(item, verdict) ==> other(item, verdict),
    ensures
        drops_closed(before, after, other),
{
    let keep = choose|keep: Seq<bool>| #[trigger]
        judges(before, one, keep) && after == selected(before, keep);
    assert(judges(before, other, keep));
}

/// An L2CAP channel that is open, or was.
pub trait L2capChannel: Sized {
    /// Nothing comes or goes any more.
    fn is_closed(&self) -> bool;
}

/// What a waiter's sender says of whether the waiter gave up.
pub open spec fn says_gone<Ch>() -> spec_fn(oneshot::Sender<Ch>, bool) -> bool {
    |waiter: oneshot::Sender<Ch>, gone: bool| ingress::asked_gone(waiter, gone)
}

/// What a channel says of whether it is closed.
pub open spec fn says_closed<Ch: L2capChannel>() -> spec_fn(Ch, bool) -> bool {
    |channel: Ch, closed: bool| call_ensures(Ch::is_closed, (&channel,), closed)
}

/// Who waits for a channel of one exact peer, and the channels that nobody waited for.
#[verifier::reject_recursive_types(Ch)]
pub struct PendingL2cap<Ch> {
    pub channel_capacity: usize,
    pub waiters: VecDeque<oneshot::Sender<Ch>>,
    pub channels: VecDeque<Ch>,
}

/// Who waits, longest first, and what is kept, longest first.
#[verifier::reject_recursive_types(Ch)]
pub struct PendingModel<Ch> {
    pub channel_capacity: usize,
    pub waiters: Seq<oneshot::Sender<Ch>>,
    pub channels: Seq<Ch>,
}

impl<Ch> PendingModel<Ch> {
    /// Nothing is pending.
    pub open spec fn empty(channel_capacity: usize) -> Self {
        PendingModel { channel_capacity, waiters: Seq::empty(), channels: Seq::empty() }
    }

    /// Nothing is pending.
    pub open spec fn is_empty(self) -> bool {
        self.waiters.len() == 0 && self.channels.len() == 0
    }

    /// Both bounds are kept, and nobody waits while a channel is there.
    pub open spec fn wf(self) -> bool {
        &&& self.waiters.len() <= MAX_WAITERS
        &&& self.channels.len() <= self.channel_capacity
        &&& self.waiters.len() == 0 || self.channels.len() == 0
    }

    /// A further channel finds a waiter or room.
    pub open spec fn can_deliver(self) -> bool {
        self.waiters.len() > 0 || self.channels.len() < self.channel_capacity
    }

    /// Dropping whoever gave up and every channel that is closed leads to `after`.
    pub open spec fn reaps(self, after: Self) -> bool where Ch: L2capChannel {
        &&& after.channel_capacity == self.channel_capacity
        &&& drops_closed(self.waiters, after.waiters, says_gone())
        &&& drops_closed(self.channels, after.channels, says_closed())
    }

    /// Somebody asks for a channel, where nothing closed is left, which leads to `after`: they are
    /// handed the channel that was kept longest, or they wait, or too many wait already.
    pub open spec fn arms(self, after: Self, waiter: oneshot::Sender<Ch>, armed: bool) -> bool {
        if self.channels.len() > 0 {
            &&& armed
            &&& after == (PendingModel { channels: self.channels.skip(1), ..self })
            &&& hands(waiter, self.channels[0])
        } else if self.waiters.len() < MAX_WAITERS {
            armed && after == (PendingModel { waiters: self.waiters.push(waiter), ..self })
        } else {
            !armed && after == self
        }
    }

    /// A channel comes in, where nothing closed is left, which leads to `after`: whoever waited
    /// longest is handed it, or it is kept, or too many are kept already.
    pub open spec fn delivers(self, after: Self, channel: Ch, taken: bool) -> bool {
        if self.waiters.len() > 0 {
            &&& taken
            &&& after == (PendingModel { waiters: self.waiters.skip(1), ..self })
            &&& hands(self.waiters[0], channel)
        } else if self.channels.len() < self.channel_capacity {
            taken && after == (PendingModel { channels: self.channels.push(channel), ..self })
        } else {
            !taken && after == self
        }
    }
}

impl<Ch: L2capChannel> PendingModel<Ch> {
    /// Whatever is dropped, put in or handed out, both bounds are kept and nobody waits while a
    /// channel is there.
    pub proof fn law_bounds_are_kept(self, after: Self)
        requires
            self.wf(),
        ensures
            self.reaps(after) ==> after.wf(),
            forall|waiter: oneshot::Sender<Ch>, armed: bool| #[trigger]
                self.arms(after, waiter, armed) ==> after.wf(),
            forall|channel: Ch, taken: bool| #[trigger]
                self.delivers(after, channel, taken) ==> after.wf(),
    {
        if self.reaps(after) {
            let waiting = choose|keep: Seq<bool>| #[trigger]
                judges(self.waiters, says_gone(), keep) && after.waiters == selected(
                    self.waiters,
                    keep,
                );
            let kept = choose|keep: Seq<bool>| #[trigger]
                judges(self.channels, says_closed(), keep) && after.channels == selected(
                    self.channels,
                    keep,
                );
            lemma_selected_len(self.waiters, waiting);
            lemma_selected_len(self.channels, kept);
        }
    }
}

/// The channel was sent to the waiter.
pub open spec fn hands<Ch>(waiter: oneshot::Sender<Ch>, channel: Ch) -> bool {
    exists|outcome: Result<(), Ch>| #[trigger] ingress::told(waiter, channel, outcome)
}

impl<Ch> View for PendingL2cap<Ch> {
    type V = PendingModel<Ch>;

    open spec fn view(&self) -> PendingModel<Ch> {
        PendingModel {
            channel_capacity: self.channel_capacity,
            waiters: self.waiters@,
            channels: self.channels@,
        }
    }
}

/// What is pending, where anything is.
pub open spec fn entry_model<Ch>(
    entry: Option<PendingL2cap<Ch>>,
    channel_capacity: usize,
) -> PendingModel<Ch> {
    match entry {
        Some(entry) => entry@,
        None => PendingModel::empty(channel_capacity),
    }
}

/// The entry is what is left of the model: an empty one goes.
pub open spec fn leaves<Ch>(model: PendingModel<Ch>, entry: Option<PendingL2cap<Ch>>) -> bool {
    match entry {
        Some(entry) => entry@ == model && !model.is_empty(),
        None => model.is_empty(),
    }
}

/// The entry was settled: what is closed of it is gone, and so is the entry where nothing is left.
pub open spec fn settles_to<Ch: L2capChannel>(
    entry: PendingL2cap<Ch>,
    after: Option<PendingL2cap<Ch>>,
) -> bool {
    exists|reaped: PendingModel<Ch>| #[trigger] entry@.reaps(reaped) && leaves(reaped, after)
}

/// Somebody was put into the entry, or refused.
pub open spec fn arms_entry<Ch: L2capChannel>(
    entry: Option<PendingL2cap<Ch>>,
    after: Option<PendingL2cap<Ch>>,
    channel_capacity: usize,
    waiter: oneshot::Sender<Ch>,
    armed: bool,
) -> bool {
    exists|reaped: PendingModel<Ch>, left: PendingModel<Ch>|
        {
            &&& #[trigger] entry_model(entry, channel_capacity).reaps(reaped)
            &&& #[trigger] reaped.arms(left, waiter, armed)
            &&& leaves(left, after)
        }
}

/// A channel was put into the entry, or refused.
pub open spec fn delivers_entry<Ch: L2capChannel>(
    entry: Option<PendingL2cap<Ch>>,
    after: Option<PendingL2cap<Ch>>,
    channel_capacity: usize,
    channel: Ch,
    taken: bool,
) -> bool {
    exists|reaped: PendingModel<Ch>, left: PendingModel<Ch>|
        {
            &&& #[trigger] entry_model(entry, channel_capacity).reaps(reaped)
            &&& #[trigger] reaped.delivers(left, channel, taken)
            &&& leaves(left, after)
        }
}

impl<Ch> PendingL2cap<Ch> {
    /// Both bounds are kept, and nobody waits while a channel is there.
    pub open spec fn wf(&self) -> bool {
        self@.wf()
    }

    /// Nothing is pending.
    pub fn new(channel_capacity: usize) -> (r: Self)
        ensures
            r@ == PendingModel::<Ch>::empty(channel_capacity),
    {
        let r = PendingL2cap {
            channel_capacity,
            waiters: VecDeque::new(),
            channels: VecDeque::new(),
        };
        assert(r@.waiters =~= Seq::empty());
        assert(r@.channels =~= Seq::empty());
        r
    }

    /// Nothing is pending.
    pub fn is_empty(&self) -> (r: bool)
        ensures
            r == self@.is_empty(),
    {
        self.waiters.len() == 0 && self.channels.len() == 0
    }

    /// A further channel finds a waiter or room.
    pub fn can_deliver(&self) -> (r: bool)
        ensures
            r == self@.can_deliver(),
    {
        self.waiters.len() > 0 || self.channels.len() < self.channel_capacity
    }

    /// How many wait.
    pub fn waiter_len(&self) -> (r: usize)
        ensures
            r == self@.waiters.len(),
    {
        self.waiters.len()
    }
}

impl<Ch: L2capChannel> PendingL2cap<Ch> {
    /// Drops whoever gave up and every channel that is closed.
    pub fn reap_closed(&mut self)
        ensures
            old(self)@.reaps(final(self)@),
            old(self).wf() ==> final(self).wf(),
    {
        let gave_up = |waiter: &oneshot::Sender<Ch>| -> (b: bool)
            ensures
                ingress::asked_gone(*waiter, b),
            { has_given_up(waiter) };
        let closed = |channel: &Ch| -> (b: bool)
            ensures
                call_ensures(Ch::is_closed, (channel,), b),
            { channel.is_closed() };
        let mut waiters: VecDeque<oneshot::Sender<Ch>> = VecDeque::new();
        core::mem::swap(&mut waiters, &mut self.waiters);
        let ghost waiting = waiters@;
        self.waiters = drop_closed(waiters, gave_up);
        let mut channels: VecDeque<Ch> = VecDeque::new();
        core::mem::swap(&mut channels, &mut self.channels);
        let ghost kept = channels@;
        self.channels = drop_closed(channels, closed);
        proof {
            lemma_drops_closed_as_said(waiting, self.waiters@, said_by(gave_up), says_gone());
            lemma_drops_closed_as_said(kept, self.channels@, said_by(closed), says_closed());
        }
    }

    /// What is left of the entry once everything closed is gone, where anything is.
    pub fn settle(self) -> (r: Option<Self>)
        ensures
            settles_to(self, r),
    {
        let mut entry = self;
        entry.reap_closed();
        entry.left()
    }

    /// The entry, unless it is empty.
    fn left(self) -> (r: Option<Self>)
        ensures
            leaves(self@, r),
    {
        if self.is_empty() {
            None
        } else {
            Some(self)
        }
    }

    /// Somebody waits for a channel from now on, or is handed the one that came first. What is
    /// closed makes room first. Says whether they were not refused.
    pub fn arm(&mut self, waiter: oneshot::Sender<Ch>) -> (r: bool)
        ensures
            exists|reaped: PendingModel<Ch>| #[trigger]
                old(self)@.reaps(reaped) && reaped.arms(final(self)@, waiter, r),
            old(self).wf() ==> final(self).wf(),
    {
        self.reap_closed();
        let ghost reaped = self@;
        let ghost asks = waiter;
        let armed = match self.channels.pop_front() {
            Some(channel) => {
                assert(self@.channels =~= reaped.channels.skip(1));
                let _ = answer(waiter, channel);
                true
            },
            None => {
                if self.waiters.len() < MAX_WAITERS {
                    self.waiters.push_back(waiter);
                    true
                } else {
                    false
                }
            },
        };
        assert(reaped.arms(self@, asks, armed));
        armed
    }

    /// A channel came in. Whoever waited longest gets it. What is closed makes room first. Says
    /// whether it was not refused.
    pub fn deliver(&mut self, channel: Ch) -> (r: bool)
        ensures
            exists|reaped: PendingModel<Ch>| #[trigger]
                old(self)@.reaps(reaped) && reaped.delivers(final(self)@, channel, r),
            old(self).wf() ==> final(self).wf(),
    {
        self.reap_closed();
        let ghost reaped = self@;
        let ghost came = channel;
        let taken = match self.waiters.pop_front() {
            Some(waiter) => {
                assert(self@.waiters =~= reaped.waiters.skip(1));
                let _ = answer(waiter, channel);
                true
            },
            None => {
                if self.channels.len() < self.channel_capacity {
                    self.channels.push_back(channel);
                    true
                } else {
                    false
                }
            },
        };
        assert(reaped.delivers(self@, came, taken));
        taken
    }

    /// Puts somebody who waits into the entry, which is made where there is none and goes where
    /// nothing is left of it.
    pub fn arm_entry(
        entry: Option<Self>,
        channel_capacity: usize,
        waiter: oneshot::Sender<Ch>,
    ) -> (r: (Option<Self>, bool))
        ensures
            arms_entry(entry, r.0, channel_capacity, waiter, r.1),
    {
        let mut held = match entry {
            Some(held) => held,
            None => PendingL2cap::new(channel_capacity),
        };
        let ghost before = held@;
        assert(before == entry_model(entry, channel_capacity));
        let armed = held.arm(waiter);
        proof {
            let reaped = choose|reaped: PendingModel<Ch>| #[trigger]
                before.reaps(reaped) && reaped.arms(held@, waiter, armed);
            assert(entry_model(entry, channel_capacity).reaps(reaped));
            assert(reaped.arms(held@, waiter, armed));
        }
        (held.left(), armed)
    }

    /// Puts a channel into the entry, which is made where there is none and goes where nothing is
    /// left of it.
    pub fn deliver_entry(entry: Option<Self>, channel_capacity: usize, channel: Ch) -> (r: (
        Option<Self>,
        bool,
    ))
        ensures
            delivers_entry(entry, r.0, channel_capacity, channel, r.1),
    {
        let mut held = match entry {
            Some(held) => held,
            None => PendingL2cap::new(channel_capacity),
        };
        let ghost before = held@;
        assert(before == entry_model(entry, channel_capacity));
        let taken = held.deliver(channel);
        proof {
            let reaped = choose|reaped: PendingModel<Ch>| #[trigger]
                before.reaps(reaped) && reaped.delivers(held@, channel, taken);
            assert(entry_model(entry, channel_capacity).reaps(reaped));
            assert(reaped.delivers(held@, channel, taken));
        }
        (held.left(), taken)
    }
}

} // verus!
