//! One inspection of a live node at a time.

use portable_atomic::{AtomicBool, AtomicU64, Ordering};
use vstd::prelude::*;

verus! {

/// An atomic flag.
#[verifier::external_type_specification]
#[verifier::external_body]
pub struct ExAtomicBool(portable_atomic::AtomicBool);

/// An atomic counter.
#[verifier::external_type_specification]
#[verifier::external_body]
pub struct ExAtomicU64(portable_atomic::AtomicU64);

/// The number that identifies no inspection.
pub const NO_INSPECTION_ID: u64 = u64::MAX;

/// Failure to begin one live node inspection.
#[derive(Clone, Copy, Debug, PartialEq, Eq, Structural)]
pub enum InspectionError {
    /// Another task currently owns the single best-effort inspection lane.
    Busy,
    /// This handle was constructed without an inspection lane.
    Unavailable,
}

/// A moment of a node's logical time, in milliseconds.
#[derive(Clone, Copy, Debug, PartialEq, Eq, Structural)]
pub struct InstantMillis(pub u64);

/// The hash by which a destination is addressed.
#[derive(Clone, Copy, Debug, PartialEq, Eq)]
pub struct DestinationHash(pub [u8; 16]);

/// One route read directly from the live engine and the logical time of that read.
#[derive(Clone, Debug, PartialEq, Eq)]
pub struct InspectedRoute<R> {
    pub observed_at: InstantMillis,
    pub route: R,
}

/// What an inspection asks.
#[derive(Clone, Copy, Debug, PartialEq, Eq)]
pub enum InspectionQuery {
    RouteCount,
    LinkCount,
    Route(DestinationHash),
    NextRouteAfter(Option<DestinationHash>),
}

/// One inspection.
#[derive(Clone, Copy, Debug, PartialEq, Eq)]
pub struct InspectionRequest {
    pub id: u64,
    pub query: InspectionQuery,
}

/// What an inspection finds.
#[derive(Clone, Debug, PartialEq, Eq)]
pub enum InspectionValue<R> {
    Count(u32),
    Route(Option<InspectedRoute<R>>),
}

/// The answer to one inspection.
#[derive(Clone, Debug, PartialEq, Eq)]
pub struct InspectionResponse<R> {
    pub id: u64,
    pub value: InspectionValue<R>,
}

/// `portable_atomic::AtomicBool::new`: a flag that has the value at first. The flag is shared, so
/// nothing is promised of what it holds later.
#[verifier::external_body]
fn new_flag(value: bool) -> (r: AtomicBool) {
    AtomicBool::new(value)
}

/// `portable_atomic::AtomicBool::compare_exchange`: where the flag is `current` it becomes `new`.
/// What it was before comes back, as a success exactly where it was `current`. The flag is shared,
/// so nothing is promised of which it is.
#[verifier::external_body]
fn exchange_flag(flag: &AtomicBool, current: bool, new: bool) -> (r: Result<bool, bool>)
    ensures
        match r {
            Ok(found) => found == current,
            Err(found) => found != current,
        },
{
    flag.compare_exchange(current, new, Ordering::AcqRel, Ordering::Acquire)
}

/// `portable_atomic::AtomicBool::store`: the flag has the value from now on.
#[verifier::external_body]
fn store_flag(flag: &AtomicBool, value: bool) {
    flag.store(value, Ordering::Release);
}

/// `portable_atomic::AtomicU64::new`: a counter that stands at the value at first. The counter is
/// shared, so nothing is promised of where it stands later.
#[verifier::external_body]
fn new_counter(value: u64) -> (r: AtomicU64) {
    AtomicU64::new(value)
}

/// `portable_atomic::AtomicU64::fetch_add`: moves the counter on by `n`, wrapping around, and
/// returns where it stood. The counter is shared, so nothing is promised of that.
#[verifier::external_body]
fn add_counter(counter: &AtomicU64, n: u64) -> (r: u64) {
    counter.fetch_add(n, Ordering::Relaxed)
}

/// Something that happens to a lane, by whichever task.
#[derive(Clone, Copy, Debug, PartialEq, Eq, Structural)]
pub enum LaneEvent {
    /// A task found the lane free and has it from now on.
    Claimed,
    /// A task found the lane taken.
    Refused,
    /// A task left the lane.
    Released,
    /// A task drew a number, and the counter stood there.
    Counted(u64),
}

/// What a lane's flag and counter hold.
pub struct LaneModel {
    pub held: bool,
    pub next: u64,
}

impl LaneModel {
    /// A lane that nobody has used.
    pub open spec fn fresh() -> Self {
        LaneModel { held: false, next: 0 }
    }

    /// This can happen to the lane now: the flag is raised only where it is down, whoever finds it
    /// raised is refused, and the counter tells where it stands.
    pub open spec fn allows(self, event: LaneEvent) -> bool {
        match event {
            LaneEvent::Claimed => !self.held,
            LaneEvent::Refused => self.held,
            LaneEvent::Released => true,
            LaneEvent::Counted(stood) => stood == self.next,
        }
    }

    /// What the lane holds after the event.
    pub open spec fn after(self, event: LaneEvent) -> Self {
        match event {
            LaneEvent::Claimed => LaneModel { held: true, ..self },
            LaneEvent::Refused => self,
            LaneEvent::Released => LaneModel { held: false, ..self },
            LaneEvent::Counted(_) => LaneModel {
                next: if self.next == u64::MAX {
                    0
                } else {
                    (self.next + 1) as u64
                },
                ..self
            },
        }
    }

    /// What the lane holds after the events in turn.
    pub open spec fn after_all(self, events: Seq<LaneEvent>) -> Self
        decreases events.len(),
    {
        if events.len() == 0 {
            self
        } else {
            self.after_all(events.drop_last()).after(events.last())
        }
    }
}

/// The claims of the lane that have not been given up.
pub open spec fn open_claims(events: Seq<LaneEvent>) -> int
    decreases events.len(),
{
    if events.len() == 0 {
        0
    } else {
        let before = open_claims(events.drop_last());
        match events.last() {
            LaneEvent::Claimed => before + 1,
            LaneEvent::Released => before - 1,
            _ => before,
        }
    }
}

/// The numbers that were drawn.
pub open spec fn numbers_drawn(events: Seq<LaneEvent>) -> nat
    decreases events.len(),
{
    if events.len() == 0 {
        0
    } else {
        let before = numbers_drawn(events.drop_last());
        match events.last() {
            LaneEvent::Counted(_) => before + 1,
            _ => before,
        }
    }
}

/// The events can happen to a new lane one after the other, and the lane is left only while some
/// task has it.
pub open spec fn is_history(events: Seq<LaneEvent>) -> bool
    decreases events.len(),
{
    if events.len() == 0 {
        true
    } else {
        let earlier = events.drop_last();
        &&& is_history(earlier)
        &&& LaneModel::fresh().after_all(earlier).allows(events.last())
        &&& events.last() is Released ==> open_claims(earlier) > 0
    }
}

proof fn lemma_history_prefix(events: Seq<LaneEvent>, n: int)
    requires
        is_history(events),
        0 <= n <= events.len(),
    ensures
        is_history(events.take(n)),
        n < events.len() ==> LaneModel::fresh().after_all(events.take(n)).allows(events[n]),
    decreases events.len(),
{
    if n == events.len() {
        assert(events.take(n) =~= events);
    } else if n == events.len() - 1 {
        assert(events.take(n) =~= events.drop_last());
    } else {
        lemma_history_prefix(events.drop_last(), n);
        assert(events.drop_last().take(n) =~= events.take(n));
    }
}

proof fn lemma_history(events: Seq<LaneEvent>)
    requires
        is_history(events),
    ensures
        0 <= open_claims(events) <= 1,
        LaneModel::fresh().after_all(events).held <==> open_claims(events) == 1,
        numbers_drawn(events) <= u64::MAX ==> LaneModel::fresh().after_all(events).next
            == numbers_drawn(events),
    decreases events.len(),
{
    if events.len() > 0 {
        lemma_history(events.drop_last());
    }
}

proof fn lemma_numbers_grow(events: Seq<LaneEvent>, i: int, j: int)
    requires
        0 <= i <= j <= events.len(),
    ensures
        numbers_drawn(events.take(i)) <= numbers_drawn(events.take(j)),
        i < j && events[i] is Counted ==> numbers_drawn(events.take(i)) < numbers_drawn(
            events.take(j),
        ),
    decreases j - i,
{
    if i < j {
        lemma_numbers_grow(events, i, j - 1);
        assert(events.take(j).drop_last() =~= events.take(j - 1));
        assert(events.take(j).last() == events[j - 1]);
    }
}

/// One inspection has the lane at a time, however many tasks try and in whatever order: a task is
/// refused exactly where another has the lane, it gets the lane exactly where nobody has it, and a
/// lane that was left is free again.
pub proof fn law_one_inspection_at_a_time(events: Seq<LaneEvent>, i: int)
    requires
        is_history(events),
        0 <= i < events.len(),
    ensures
        0 <= open_claims(events.take(i)) <= 1,
        events[i] is Refused || events[i] is Claimed ==> (events[i] is Refused <==> open_claims(
            events.take(i),
        ) == 1),
        events[i] is Released ==> open_claims(events.take(i + 1)) == 0,
{
    lemma_history_prefix(events, i);
    lemma_history_prefix(events, i + 1);
    lemma_history(events.take(i));
    lemma_history(events.take(i + 1));
    assert(events.take(i + 1).drop_last() =~= events.take(i));
    assert(events.take(i + 1).last() == events[i]);
}

/// No two inspections have the same number while the counter has not wrapped around.
pub proof fn law_numbers_are_distinct(events: Seq<LaneEvent>, i: int, j: int)
    requires
        is_history(events),
        0 <= i < j < events.len(),
        events[i] is Counted && events[j] is Counted,
        numbers_drawn(events) <= u64::MAX,
    ensures
        events[i] != events[j],
{
    lemma_history_prefix(events, i);
    lemma_history_prefix(events, j);
    lemma_numbers_grow(events, i, j);
    lemma_numbers_grow(events, j, events.len() as int);
    assert(events.take(events.len() as int) =~= events);
    lemma_history(events.take(i));
    lemma_history(events.take(j));
}

/// Lets one inspection through at a time and gives each its number.
pub struct InspectionTurn {
    next_id: AtomicU64,
    claimed: AtomicBool,
}

/// The number identifies an inspection.
pub fn inspection_id(raw: u64) -> (r: Option<u64>)
    ensures
        r == if raw == NO_INSPECTION_ID {
            None
        } else {
            Some(raw)
        },
{
    if raw == NO_INSPECTION_ID {
        None
    } else {
        Some(raw)
    }
}

/// Whether it is the inspection's turn, from what the attempt to take it found.
pub fn claim_result(found: Result<bool, bool>) -> (r: Result<(), InspectionError>)
    ensures
        r == match found {
            Ok(_) => Ok(()),
            Err(_) => Err(InspectionError::Busy),
        },
{
    match found {
        Ok(_) => Ok(()),
        Err(_) => Err(InspectionError::Busy),
    }
}

/// The value of the response, where it answers the inspection of the number.
pub open spec fn own_answer<R>(response: InspectionResponse<R>, id: u64) -> Option<
    InspectionValue<R>,
> {
    if response.id == id {
        Some(response.value)
    } else {
        None
    }
}

/// The value of the answer, where it answers the inspection. An answer to another inspection is
/// dropped.
pub fn answer_to<R>(response: InspectionResponse<R>, id: u64) -> (r: Option<InspectionValue<R>>)
    ensures
        r == own_answer(response, id),
{
    if response.id == id {
        Some(response.value)
    } else {
        None
    }
}

impl InspectionTurn {
    /// The lane was made with its flag down and its counter at zero.
    pub closed spec fn is_fresh(self) -> bool {
        call_ensures(new_counter, (0u64,), self.next_id) && call_ensures(
            new_flag,
            (false,),
            self.claimed,
        )
    }

    /// The event happened to this lane.
    pub closed spec fn saw(self, event: LaneEvent) -> bool {
        match event {
            LaneEvent::Claimed => call_ensures(
                exchange_flag,
                (&self.claimed, false, true),
                Ok::<bool, bool>(false),
            ),
            LaneEvent::Refused => call_ensures(
                exchange_flag,
                (&self.claimed, false, true),
                Err::<bool, bool>(true),
            ),
            LaneEvent::Released => call_ensures(store_flag, (&self.claimed, false), ()),
            LaneEvent::Counted(stood) => call_ensures(add_counter, (&self.next_id, 1u64), stood),
        }
    }

    /// A turn that nobody has taken.
    pub fn new() -> (r: Self)
        ensures
            r.is_fresh(),
    {
        InspectionTurn { next_id: new_counter(0), claimed: new_flag(false) }
    }

    /// Takes the turn where nobody else has.
    fn claim(&self) -> (r: Result<(), InspectionError>)
        ensures
            match r {
                Ok(()) => self.saw(LaneEvent::Claimed),
                Err(error) => error == InspectionError::Busy && self.saw(LaneEvent::Refused),
            },
    {
        claim_result(exchange_flag(&self.claimed, false, true))
    }

    /// Leaves the turn to the next inspection.
    fn release(&self)
        ensures
            self.saw(LaneEvent::Released),
    {
        store_flag(&self.claimed, false);
    }

    /// A number for an inspection, or nothing where the counter stood at the one number that
    /// identifies none. The next attempt finds another.
    fn mint(&self) -> (r: Option<u64>)
        ensures
            match r {
                Some(id) => self.saw(LaneEvent::Counted(id)) && id != NO_INSPECTION_ID,
                None => self.saw(LaneEvent::Counted(NO_INSPECTION_ID)),
            },
    {
        inspection_id(add_counter(&self.next_id, 1))
    }
}

/// One inspection that has its turn. Only it can leave the turn again.
pub struct Inspection<'a> {
    turn: &'a InspectionTurn,
    query: InspectionQuery,
    id: Option<u64>,
}

impl<'a> Inspection<'a> {
    /// The turn that the inspection has.
    pub closed spec fn turn(self) -> InspectionTurn {
        *self.turn
    }

    /// What the inspection asks.
    pub closed spec fn query(self) -> InspectionQuery {
        self.query
    }

    /// The number of the inspection, once it has asked.
    pub closed spec fn id(self) -> Option<u64> {
        self.id
    }

    /// Begins an inspection, unless another one has the turn.
    pub fn begin(turn: &'a InspectionTurn, query: InspectionQuery) -> (r: Result<
        Self,
        InspectionError,
    >)
        ensures
            match r {
                Ok(inspection) => {
                    &&& turn.saw(LaneEvent::Claimed)
                    &&& inspection.turn() == *turn
                    &&& inspection.query() == query
                    &&& inspection.id() is None
                },
                Err(error) => error == InspectionError::Busy && turn.saw(LaneEvent::Refused),
            },
    {
        match turn.claim() {
            Ok(()) => Ok(Inspection { turn, query, id: None }),
            Err(error) => Err(error),
        }
    }

    /// The request of the inspection, under a number of its own, or nothing where the number drawn
    /// identifies none. The next attempt draws another.
    pub fn request(&mut self) -> (r: Option<InspectionRequest>)
        ensures
            final(self).turn() == old(self).turn(),
            final(self).query() == old(self).query(),
            match r {
                Some(request) => {
                    &&& old(self).turn().saw(LaneEvent::Counted(request.id))
                    &&& request.id != NO_INSPECTION_ID
                    &&& request.query == old(self).query()
                    &&& final(self).id() == Some(request.id)
                },
                None => {
                    &&& old(self).turn().saw(LaneEvent::Counted(NO_INSPECTION_ID))
                    &&& final(self).id() == old(self).id()
                },
            },
    {
        match self.turn.mint() {
            Some(id) => {
                self.id = Some(id);
                Some(InspectionRequest { id, query: self.query })
            },
            None => None,
        }
    }

    /// What the response answers, where it answers this inspection.
    pub fn answer<R>(&self, response: InspectionResponse<R>) -> (r: Option<InspectionValue<R>>)
        ensures
            r == match self.id() {
                Some(id) => own_answer(response, id),
                None => None,
            },
    {
        match self.id {
            Some(id) => answer_to(response, id),
            None => None,
        }
    }

    /// Ends the inspection, however it went, and leaves the turn to the next one.
    pub fn finish(self)
        ensures
            self.turn().saw(LaneEvent::Released),
    {
        self.turn.release();
    }
}

/// What an inspection returns of the responses that come in one after the other: the value of the
/// first one that answers it.
pub open spec fn first_answer<R>(responses: Seq<InspectionResponse<R>>, id: u64) -> Option<
    InspectionValue<R>,
>
    decreases responses.len(),
{
    if responses.len() == 0 {
        None
    } else {
        match own_answer(responses[0], id) {
            Some(value) => Some(value),
            None => first_answer(responses.drop_first(), id),
        }
    }
}

/// An inspection returns only what answers it: responses to others are skipped, however many come,
/// and the first of its own ends it.
pub proof fn law_other_answers_are_skipped<R>(
    others: Seq<InspectionResponse<R>>,
    own: InspectionResponse<R>,
    later: Seq<InspectionResponse<R>>,
)
    requires
        forall|i: int| 0 <= i < others.len() ==> (#[trigger] others[i]).id != own.id,
    ensures
        first_answer(others, own.id) is None,
        first_answer(others.push(own) + later, own.id) == Some(own.value),
    decreases others.len(),
{
    let all = others.push(own) + later;
    if others.len() > 0 {
        let rest = others.drop_first();
        assert(all[0] == others[0]);
        assert(all.drop_first() =~= rest.push(own) + later);
        assert forall|i: int| 0 <= i < rest.len() implies (#[trigger] rest[i]).id != own.id by {
            assert(rest[i] == others[i + 1]);
        }
        law_other_answers_are_skipped(rest, own, later);
    } else {
        assert(all[0] == own);
    }
}

} // verus!
