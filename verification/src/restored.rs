//! Callbacks that arrive for a restored peer before its session is admitted.

use std::collections::VecDeque;
use vstd::prelude::*;

verus! {

/// Control messages that one session holds before its owner reads them.
pub const CENTRAL_CONTROL_INBOUND_CAPACITY: usize = 8;

/// What one fragment costs of a byte budget: its length, and one for an empty fragment.
pub open spec fn charge(fragment: Seq<u8>) -> nat {
    if fragment.len() == 0 {
        1
    } else {
        fragment.len()
    }
}

/// What the fragments cost together.
pub open spec fn total_charge(fragments: Seq<Seq<u8>>) -> nat
    decreases fragments.len(),
{
    if fragments.len() == 0 {
        0
    } else {
        total_charge(fragments.drop_last()) + charge(fragments.last())
    }
}

/// What a [`RestoredCallbackBuffer`] holds.
pub struct CallbackModel<C> {
    pub budget: nat,
    pub controls: Seq<C>,
    pub data: Seq<Seq<u8>>,
    pub failed: bool,
}

impl<C> CallbackModel<C> {
    /// A buffer of the given budget that holds nothing.
    pub open spec fn empty(budget: nat) -> Self {
        CallbackModel { budget, controls: Seq::empty(), data: Seq::empty(), failed: false }
    }

    /// The buffer once its handoff has failed: everything it held is gone.
    pub open spec fn fail(self) -> Self {
        CallbackModel {
            budget: self.budget,
            controls: Seq::empty(),
            data: Seq::empty(),
            failed: true,
        }
    }

    /// The limits are kept, and a failed buffer holds nothing.
    pub open spec fn wf(self) -> bool {
        &&& self.controls.len() <= CENTRAL_CONTROL_INBOUND_CAPACITY
        &&& total_charge(self.data) <= self.budget
        &&& self.failed ==> self.controls.len() == 0 && self.data.len() == 0
    }

    /// A further control message fits.
    pub open spec fn control_fits(self) -> bool {
        !self.failed && self.controls.len() < CENTRAL_CONTROL_INBOUND_CAPACITY
    }

    /// A further fragment fits.
    pub open spec fn data_fits(self, fragment: Seq<u8>) -> bool {
        !self.failed && total_charge(self.data) + charge(fragment) <= self.budget
    }

    /// The buffer after a control message was offered to it.
    pub open spec fn offer_control(self, control: C) -> Self {
        if self.control_fits() {
            CallbackModel { controls: self.controls.push(control), ..self }
        } else {
            self.fail()
        }
    }

    /// The buffer after a fragment was offered to it.
    pub open spec fn offer_data(self, fragment: Seq<u8>) -> Self {
        if self.data_fits(fragment) {
            CallbackModel { data: self.data.push(fragment), ..self }
        } else {
            self.fail()
        }
    }
}

/// One callback of a restored peer.
pub enum RestoredCallback<C> {
    Control(C),
    Data(Seq<u8>),
}

impl<C> CallbackModel<C> {
    /// The buffer after a callback was offered to it.
    pub open spec fn offer(self, callback: RestoredCallback<C>) -> Self {
        match callback {
            RestoredCallback::Control(control) => self.offer_control(control),
            RestoredCallback::Data(fragment) => self.offer_data(fragment),
        }
    }

    /// The buffer after the callbacks were offered to it in turn.
    pub open spec fn offer_all(self, callbacks: Seq<RestoredCallback<C>>) -> Self
        decreases callbacks.len(),
    {
        if callbacks.len() == 0 {
            self
        } else {
            self.offer_all(callbacks.drop_last()).offer(callbacks.last())
        }
    }

    /// Offering a callback keeps the limits.
    pub proof fn law_offer_keeps_wf(self, callback: RestoredCallback<C>)
        requires
            self.wf(),
        ensures
            self.offer(callback).wf(),
    {
        match callback {
            RestoredCallback::Control(_) => {},
            RestoredCallback::Data(fragment) => {
                assert(self.data.push(fragment).drop_last() =~= self.data);
            },
        }
    }

    /// An overflow fails the handoff for good: whatever is offered later, nothing is held.
    pub proof fn law_overflow_is_final(self, callbacks: Seq<RestoredCallback<C>>)
        requires
            self.wf(),
            self.failed,
        ensures
            self.offer_all(callbacks) == self.fail(),
        decreases callbacks.len(),
    {
        if callbacks.len() > 0 {
            self.law_overflow_is_final(callbacks.drop_last());
        } else {
            assert(self.controls =~= Seq::empty());
            assert(self.data =~= Seq::empty());
        }
    }

    /// A handoff that did not fail has skipped nothing: it holds every control message and every
    /// fragment that was offered, each in its order.
    pub proof fn law_nothing_is_skipped(budget: nat, callbacks: Seq<RestoredCallback<C>>)
        requires
            !Self::empty(budget).offer_all(callbacks).failed,
        ensures
            Self::empty(budget).offer_all(callbacks).controls == controls_of(callbacks),
            Self::empty(budget).offer_all(callbacks).data == fragments_of(callbacks),
        decreases callbacks.len(),
    {
        if callbacks.len() > 0 {
            Self::law_nothing_is_skipped(budget, callbacks.drop_last());
        }
    }
}

/// The control messages among the callbacks, in their order.
pub open spec fn controls_of<C>(callbacks: Seq<RestoredCallback<C>>) -> Seq<C>
    decreases callbacks.len(),
{
    if callbacks.len() == 0 {
        Seq::empty()
    } else {
        match callbacks.last() {
            RestoredCallback::Control(control) => controls_of(callbacks.drop_last()).push(control),
            RestoredCallback::Data(_) => controls_of(callbacks.drop_last()),
        }
    }
}

/// The fragments among the callbacks, in their order.
pub open spec fn fragments_of<C>(callbacks: Seq<RestoredCallback<C>>) -> Seq<Seq<u8>>
    decreases callbacks.len(),
{
    if callbacks.len() == 0 {
        Seq::empty()
    } else {
        match callbacks.last() {
            RestoredCallback::Control(_) => fragments_of(callbacks.drop_last()),
            RestoredCallback::Data(fragment) => fragments_of(callbacks.drop_last()).push(fragment),
        }
    }
}

/// Value notifications received after CoreBluetooth restores a peripheral but before the host
/// admits its central-role session. A buffer overflow marks the handoff failed: silently skipping
/// a control message or framed-data fragment could corrupt the restored protocol stream.
pub struct RestoredCallbackBuffer<C> {
    budget: usize,
    controls: VecDeque<C>,
    data: VecDeque<Vec<u8>>,
    charged_data_bytes: usize,
    failed: bool,
}

/// The fragments as sequences of bytes.
pub open spec fn fragments_view(data: Seq<Vec<u8>>) -> Seq<Seq<u8>> {
    data.map_values(|fragment: Vec<u8>| fragment@)
}

impl<C> View for RestoredCallbackBuffer<C> {
    type V = CallbackModel<C>;

    closed spec fn view(&self) -> CallbackModel<C> {
        CallbackModel {
            budget: self.budget as nat,
            controls: self.controls@,
            data: fragments_view(self.data@),
            failed: self.failed,
        }
    }
}

impl<C> RestoredCallbackBuffer<C> {
    /// The limits are kept and the running charge is that of the fragments held.
    pub closed spec fn wf(&self) -> bool {
        &&& self@.wf()
        &&& self.charged_data_bytes == total_charge(self@.data)
    }

    /// A well-formed buffer keeps its limits.
    pub proof fn lemma_wf(&self)
        requires
            self.wf(),
        ensures
            self@.wf(),
    {
    }

    /// An empty buffer that holds fragments up to the given charge.
    pub fn new(budget: usize) -> (r: Self)
        ensures
            r.wf(),
            r@ == CallbackModel::<C>::empty(budget as nat),
    {
        let r = RestoredCallbackBuffer {
            budget,
            controls: VecDeque::new(),
            data: VecDeque::new(),
            charged_data_bytes: 0,
            failed: false,
        };
        assert(fragments_view(r.data@) =~= Seq::<Seq<u8>>::empty());
        r
    }

    /// Appends a control message, or fails the handoff where it does not fit. Says whether the
    /// message was kept.
    pub fn buffer_control(&mut self, control: C) -> (r: bool)
        requires
            old(self).wf(),
        ensures
            final(self).wf(),
            final(self)@ == old(self)@.offer_control(control),
            r == old(self)@.control_fits(),
    {
        if self.failed || self.controls.len() >= CENTRAL_CONTROL_INBOUND_CAPACITY {
            self.fail();
            return false;
        }
        self.controls.push_back(control);
        true
    }

    /// Appends a fragment, or fails the handoff where it does not fit. Says whether the fragment
    /// was kept.
    pub fn buffer_data(&mut self, data: Vec<u8>) -> (r: bool)
        requires
            old(self).wf(),
        ensures
            final(self).wf(),
            final(self)@ == old(self)@.offer_data(data@),
            r == old(self)@.data_fits(data@),
    {
        if self.failed {
            assert(self@.controls =~= Seq::<C>::empty());
            assert(self@.data =~= Seq::<Seq<u8>>::empty());
            return false;
        }
        let cost: usize = if data.len() == 0 {
            1
        } else {
            data.len()
        };
        match self.charged_data_bytes.checked_add(cost) {
            Some(charged) if charged <= self.budget => {
                self.charged_data_bytes = charged;
                self.data.push_back(data);
                proof {
                    assert(fragments_view(self.data@) =~= old(self)@.data.push(data@));
                    assert(old(self)@.data.push(data@).drop_last() =~= old(self)@.data);
                }
                true
            },
            _ => {
                self.fail();
                false
            },
        }
    }

    /// Marks the handoff failed and drops what the buffer held.
    pub fn fail(&mut self)
        ensures
            final(self).wf(),
            final(self)@ == old(self)@.fail(),
    {
        self.failed = true;
        self.controls.clear();
        self.data.clear();
        self.charged_data_bytes = 0;
        assert(fragments_view(self.data@) =~= Seq::<Seq<u8>>::empty());
    }

    /// The control messages and the fragments, each in the order in which they came.
    pub fn into_parts(self) -> (r: (VecDeque<C>, VecDeque<Vec<u8>>))
        ensures
            r.0@ == self@.controls,
            fragments_view(r.1@) == self@.data,
    {
        (self.controls, self.data)
    }

    /// The handoff has failed.
    pub fn failed(&self) -> (r: bool)
        ensures
            r == self@.failed,
    {
        self.failed
    }
}

} // verus!
