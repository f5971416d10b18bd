//! Command execution: read, fold, decide, append.
//!
//! Reading from the event store and appending to it are the caller's part.
//! Between them stand the steps of this module: [`begin`] validates the input
//! and plans the query, [`replay`] folds the history into the handler,
//! [`conclude`] lets the handler decide, and [`plan_append`] encodes what it
//! emitted, under the condition that makes the append fail if the history has
//! moved on.

use vstd::prelude::*;
use vstd::string::*;

use crate::domain_id::{fields_well_named, tags_of, DomainIdBindings};
use crate::emit::{Emit, EmittedEvent, EmittedEventView};
use crate::envelope::{
    fresh_uuid, is_random_uuid, CommandContext, EventEnvelope, EventMeta, StoredEventData,
    Timestamp,
};
use crate::error::{CommandError, ExecuteError, SerializationError};
use crate::event::EventSet;
use crate::query::{build_query_items, items_view, plan, schema_view, EventDomainIds, QueryItem};

verus! {

/// The input of a command, which says which domain IDs the command is about.
pub trait CommandInput {
    /// The domain-ID bindings of this input: for each domain-ID field name
    /// the values to query for.
    fn domain_id_bindings(&self) -> DomainIdBindings;
}

/// A command handler.
///
/// A handler declares which events it reads and what its input is, rebuilds
/// its state from history through `apply`, and decides through `handle`. A
/// fresh handler is made for every execution.
pub trait Command: Sized {
    /// The set of event types this handler reads.
    type Query: EventSet;

    /// The input type of the command.
    type Input: CommandInput;

    /// A handler in its initial state.
    fn new() -> Self;

    /// Checks the input before anything is read. Unless a handler says
    /// otherwise, every input passes.
    fn validate(input: &Self::Input) -> Result<(), CommandError> {
        Ok(())
    }

    /// The query that selects the history of the command. Unless a handler
    /// makes its own, it is planned from the input's domain-ID bindings
    /// against the handler's event set.
    fn query(&self, input: &Self::Input) -> Vec<QueryItem> {
        planned_query::<Self::Input, Self::Query>(input).query
    }

    /// Folds one historical event into the handler's state.
    fn apply(&mut self, event: Self::Query, meta: EventMeta);

    /// Decides: the events to emit, or why the command is refused.
    fn handle(self, input: &Self::Input) -> Result<Emit, CommandError>;
}

/// A query with what it was planned from.
pub struct Planned {
    /// The bindings that the query was planned from.
    pub bindings: DomainIdBindings,
    /// The schema of the event set that the query was planned against.
    pub schema: Vec<EventDomainIds>,
    /// The items of the query.
    pub query: Vec<QueryItem>,
}

/// Plans the query for an input against an event set: from the input's
/// domain-ID bindings and the fields by which the set queries its event
/// types.
pub fn planned_query<I: CommandInput, Q: EventSet>(input: &I) -> (r: Planned)
    ensures
        call_ensures(I::domain_id_bindings, (input,), r.bindings),
        call_ensures(Q::event_domain_ids, (), r.schema),
        items_view(r.query@) == plan(schema_view(r.schema@), r.bindings@),
{
    let bindings = input.domain_id_bindings();
    let schema = Q::event_domain_ids();
    let query = build_query_items(&bindings, &schema);
    Planned { bindings, schema, query }
}

/// An execution that has passed validation: the handler, and the query that
/// selects its history.
pub struct Started<C> {
    /// The handler, in its initial state.
    pub handler: C,
    /// The items of the query.
    pub query: Vec<QueryItem>,
}

/// What follows from the outcome of validation: a failure ends the execution
/// as a validation error.
pub fn validated(outcome: Result<(), CommandError>) -> (r: Result<(), ExecuteError>)
    ensures
        match outcome {
            Ok(_) => r is Ok,
            Err(e) => r == Err::<(), ExecuteError>(ExecuteError::Validation(e)),
        },
{
    match outcome {
        Ok(_) => Ok(()),
        Err(e) => Err(ExecuteError::Validation(e)),
    }
}

/// Whether `r` is how an execution begins for `input`, where `outcome` is
/// what the handler's validation gave: a failure ends the execution as a
/// validation error with that cause; else the handler is a fresh one, and the
/// query is the one that it gives for the input.
pub open spec fn begins<C: Command>(
    input: &C::Input,
    outcome: Result<(), CommandError>,
    r: Result<Started<C>, ExecuteError>,
) -> bool {
    match outcome {
        Err(e) => r == Err::<Started<C>, ExecuteError>(ExecuteError::Validation(e)),
        Ok(_) => r is Ok && call_ensures(C::new, (), r->Ok_0.handler) && call_ensures(
            C::query,
            (&r->Ok_0.handler, input),
            r->Ok_0.query,
        ),
    }
}

/// Begins an execution: validates the input, makes the handler and asks it
/// for the query that selects its history. Only a failed validation ends the
/// execution here.
pub fn begin<C: Command>(input: &C::Input) -> (r: Result<Started<C>, ExecuteError>)
    ensures
        exists|outcome: Result<(), CommandError>| #[trigger]
            call_ensures(C::validate, (input,), outcome) && begins(input, outcome, r),
{
    match validated(C::validate(input)) {
        Ok(_) => {},
        Err(e) => {
            return Err(e);
        },
    }
    let handler = C::new();
    let query = handler.query(input);
    Ok(Started { handler, query })
}

/// One event of the history that the store returned for the query.
pub struct HistoryEvent {
    /// The event's position in the store.
    pub position: u64,
    /// The event type name.
    pub event_type: String,
    /// What the store holds for the event, or why it could not be read.
    pub stored: Result<StoredEventData, SerializationError>,
}

/// Whether an event at `position` is new to a fold that last took the event
/// at `last`.
pub open spec fn is_new(last: Option<u64>, position: u64) -> bool {
    match last {
        Some(l) => position > l,
        None => true,
    }
}

/// The positions that a fold takes from a history: each one that lies beyond
/// all that came before it.
pub open spec fn taken(positions: Seq<u64>) -> Seq<u64>
    decreases positions.len(),
{
    if positions.len() == 0 {
        Seq::empty()
    } else {
        let front = taken(positions.drop_last());
        if is_new(last_of(front), positions.last()) {
            front.push(positions.last())
        } else {
            front
        }
    }
}

/// The last of a sequence of positions, if there is one.
pub open spec fn last_of(s: Seq<u64>) -> Option<u64> {
    if s.len() > 0 {
        Some(s.last())
    } else {
        None
    }
}

/// The positions of a history, in order.
pub open spec fn positions_of(history: Seq<HistoryEvent>) -> Seq<u64> {
    Seq::new(history.len(), |i: int| history[i].position)
}

/// The positions that a fold takes are strictly increasing: no event is
/// folded twice, whatever the store streams.
pub proof fn lemma_taken_increasing(positions: Seq<u64>)
    ensures
        forall|i: int, j: int|
            0 <= i < j < taken(positions).len() ==> taken(positions)[i] < taken(positions)[j],
    decreases positions.len(),
{
    if positions.len() > 0 {
        lemma_taken_increasing(positions.drop_last());
        let front = taken(positions.drop_last());
        assert forall|i: int, j: int| 0 <= i < j < taken(positions).len() implies taken(
            positions,
        )[i] < taken(positions)[j] by {
            if j == front.len() {
                if i < front.len() - 1 {
                    assert(front[i] < front[front.len() - 1]);
                }
            }
        }
    }
}

/// What a fold has done.
pub struct Replayed {
    /// The positions taken from the history, in order.
    pub positions: Vec<u64>,
    /// The times of emission of the events handed to the handler, in order.
    pub observed: Vec<Timestamp>,
    /// The latest of the observed times.
    pub latest: Option<Timestamp>,
}

/// Whether `latest` is the latest of the times `observed`: one of them, at or
/// after each; and absent if there are none.
pub open spec fn is_latest(latest: Option<Timestamp>, observed: Seq<Timestamp>) -> bool {
    match latest {
        Some(t) => observed.contains(t) && forall|k: int|
            0 <= k < observed.len() ==> t.is_at_or_after(#[trigger] observed[k]),
        None => observed.len() == 0,
    }
}

/// The later of a time seen so far and one more.
pub fn later_of(seen: Option<Timestamp>, next: Timestamp) -> (r: Timestamp)
    ensures
        r.is_at_or_after(next),
        seen.is_some() ==> r.is_at_or_after(seen.unwrap()),
        r == next || seen == Some(r),
{
    match seen {
        Some(s) => if next.at_or_after(&s) {
            next
        } else {
            s
        },
        None => next,
    }
}

/// Whether the fold takes the event at index `i` of the history: its position
/// lies beyond the positions taken before it.
pub open spec fn is_taken(history: Seq<HistoryEvent>, i: int) -> bool {
    is_new(last_of(taken(positions_of(history).take(i))), history[i].position)
}

/// `outcome` is what the event set `Q` made of an event with the given type
/// name and payload.
pub open spec fn reads_as<Q: EventSet>(
    event_type: Seq<char>,
    data: Seq<u8>,
    outcome: Option<Result<Q, SerializationError>>,
) -> bool {
    exists|t: &str, d: &[u8]|
        t@ == event_type && d@ == data && #[trigger] call_ensures(Q::from_event, (t, d), outcome)
}

/// A handler of type `C` was given `event` to fold in, with `meta`.
pub open spec fn handed<C: Command>(event: C::Query, meta: EventMeta) -> bool {
    exists|r: &mut C| #[trigger] call_ensures(C::apply, (r, event, meta), ())
}

/// What a fold did at one event of the history.
pub struct FoldStep<C: Command> {
    /// What the handler's event set made of the event, if it was asked.
    pub outcome: Option<Result<C::Query, SerializationError>>,
}

/// Whether the fold fails at the event at index `i`: the event is taken, and
/// what the store holds for it cannot be read, or its payload cannot.
pub open spec fn fails_at<C: Command>(
    history: Seq<HistoryEvent>,
    trace: Seq<FoldStep<C>>,
    i: int,
) -> bool {
    is_taken(history, i) && match history[i].stored {
        Err(_) => true,
        Ok(_) => match trace[i].outcome {
            Some(Err(_)) => true,
            _ => false,
        },
    }
}

/// Whether `cause` is why the fold fails at the event at index `i`.
pub open spec fn is_cause<C: Command>(
    history: Seq<HistoryEvent>,
    trace: Seq<FoldStep<C>>,
    i: int,
    cause: SerializationError,
) -> bool {
    match history[i].stored {
        Err(e) => cause == e,
        Ok(_) => trace[i].outcome == Some(Err::<C::Query, SerializationError>(cause)),
    }
}

/// Whether the event at index `i` goes to the handler: it is taken, and it
/// reads as an event of the handler's set.
pub open spec fn applied_at<C: Command>(
    history: Seq<HistoryEvent>,
    trace: Seq<FoldStep<C>>,
    i: int,
) -> bool {
    is_taken(history, i) && history[i].stored is Ok && match trace[i].outcome {
        Some(Ok(_)) => true,
        _ => false,
    }
}

/// What the fold does at the event at index `i`. Nothing is asked of an
/// event that is not taken, nor of one that the store does not hold readably.
/// A taken event that the store holds readably is read into the handler's
/// event set by its type name and payload; if it is of the set, it is handed
/// to the handler with the time of its emission.
pub open spec fn step_holds<C: Command>(
    history: Seq<HistoryEvent>,
    trace: Seq<FoldStep<C>>,
    i: int,
) -> bool {
    if !is_taken(history, i) {
        trace[i].outcome.is_none()
    } else {
        match history[i].stored {
            Err(_) => trace[i].outcome.is_none(),
            Ok(stored) => reads_as::<C::Query>(
                history[i].event_type@,
                stored.data@,
                trace[i].outcome,
            ) && match trace[i].outcome {
                Some(Ok(event)) => handed::<C>(event, EventMeta { timestamp: stored.timestamp }),
                _ => true,
            },
        }
    }
}

/// Whether the fold goes through the first `n` events without failure, each
/// as `step_holds` says.
pub open spec fn goes_well<C: Command>(
    history: Seq<HistoryEvent>,
    trace: Seq<FoldStep<C>>,
    n: int,
) -> bool {
    forall|j: int|
        0 <= j < n ==> #[trigger] step_holds(history, trace, j) && !fails_at(history, trace, j)
}

/// Whether none of the first `n` events goes to the handler.
pub open spec fn none_applied<C: Command>(
    history: Seq<HistoryEvent>,
    trace: Seq<FoldStep<C>>,
    n: int,
) -> bool {
    forall|j: int| 0 <= j < n ==> !applied_at(history, trace, j)
}

/// The times of emission of the events among the first `n` that go to the
/// handler, in order.
pub open spec fn observed_upto<C: Command>(
    history: Seq<HistoryEvent>,
    trace: Seq<FoldStep<C>>,
    n: int,
) -> Seq<Timestamp>
    decreases n,
{
    if n <= 0 {
        Seq::empty()
    } else {
        let before = observed_upto(history, trace, n - 1);
        if applied_at(history, trace, n - 1) {
            before.push(history[n - 1].stored->Ok_0.timestamp)
        } else {
            before
        }
    }
}

/// Whether the fold stops at the event at index `i` with the error `e`: the
/// events before it were folded without failure, this one fails, `e` carries
/// its cause, and nothing is asked of the events after it.
pub open spec fn stops_at<C: Command>(
    history: Seq<HistoryEvent>,
    trace: Seq<FoldStep<C>>,
    i: int,
    e: ExecuteError,
) -> bool {
    &&& 0 <= i < history.len()
    &&& fails_at(history, trace, i)
    &&& goes_well(history, trace, i)
    &&& step_holds(history, trace, i)
    &&& forall|j: int| i < j < history.len() ==> (#[trigger] trace[j]).outcome.is_none()
    &&& e is Serialization
    &&& is_cause(history, trace, i, e->Serialization_0)
}

/// Whether `r` is what the fold of `history` gives, where `trace` holds what
/// happened at each event.
///
/// The fold succeeds if and only if no event fails. Then every event was
/// folded, the positions taken are those that lie beyond all before them,
/// and the observed times are those of the events that went to the handler.
/// Otherwise the fold stops at the first event that fails, with its cause.
pub open spec fn replays<C: Command>(
    history: Seq<HistoryEvent>,
    trace: Seq<FoldStep<C>>,
    r: Result<Replayed, ExecuteError>,
) -> bool {
    &&& trace.len() == history.len()
    &&& match r {
        Ok(done) => {
            &&& goes_well(history, trace, history.len() as int)
            &&& done.positions@ == taken(positions_of(history))
            &&& done.observed@ == observed_upto(history, trace, history.len() as int)
            &&& is_latest(done.latest, done.observed@)
        },
        Err(e) => exists|i: int| #[trigger] stops_at(history, trace, i, e),
    }
}

/// The observed times depend on what happened at the events counted, not on
/// what is recorded for later ones.
pub proof fn lemma_observed_prefix<C: Command>(
    history: Seq<HistoryEvent>,
    one: Seq<FoldStep<C>>,
    other: Seq<FoldStep<C>>,
    n: int,
)
    requires
        n <= one.len(),
        n <= other.len(),
        forall|j: int| 0 <= j < n ==> one[j] == other[j],
    ensures
        observed_upto(history, one, n) == observed_upto(history, other, n),
    decreases n,
{
    if n > 0 {
        lemma_observed_prefix(history, one, other, n - 1);
        assert(one[n - 1] == other[n - 1]);
    }
}

/// The handler is shown no more events than the fold takes.
pub proof fn lemma_observed_within_taken<C: Command>(
    history: Seq<HistoryEvent>,
    trace: Seq<FoldStep<C>>,
    n: int,
)
    requires
        0 <= n <= history.len(),
    ensures
        observed_upto(history, trace, n).len() <= taken(positions_of(history).take(n)).len(),
    decreases n,
{
    if n > 0 {
        lemma_observed_within_taken(history, trace, n - 1);
        let all = positions_of(history);
        assert(all.take(n).drop_last() =~= all.take(n - 1));
        assert(all.take(n).last() == history[n - 1].position);
    }
}

/// What follows from reading an event of the history into the handler's
/// event set: an event of the set goes to the handler, an event of another
/// type is passed over, and a payload that cannot be read ends the fold with
/// a serialization error that carries the cause.
pub fn reading<Q>(decoded: Option<Result<Q, SerializationError>>) -> (r: Result<
    Option<Q>,
    ExecuteError,
>)
    ensures
        match decoded {
            None => r == Ok::<Option<Q>, ExecuteError>(None),
            Some(Ok(q)) => r == Ok::<Option<Q>, ExecuteError>(Some(q)),
            Some(Err(e)) => r == Err::<Option<Q>, ExecuteError>(ExecuteError::Serialization(e)),
        },
{
    match decoded {
        None => Ok(None),
        Some(Ok(q)) => Ok(Some(q)),
        Some(Err(e)) => Err(ExecuteError::Serialization(e)),
    }
}

/// Folds the history into the handler, in order. An event at a position that
/// does not lie beyond the ones before it is passed over; so is an event
/// whose type is not of the handler's event set. An event that cannot be read
/// ends the fold with a serialization error.
///
/// The contract speaks of what happened at each event (`trace`) and of the
/// handler's state before and after each event (`states`): the result is what
/// `replays` says for the trace, and the handler goes from state to state by
/// folding in exactly the events that `applied_at` names, each with the time
/// of its emission, and stays as it is at every other event.
pub fn replay<C: Command>(handler: &mut C, history: &Vec<HistoryEvent>) -> (r: Result<
    Replayed,
    ExecuteError,
>)
    ensures
        exists|trace: Seq<FoldStep<C>>, states: Seq<C>|
            #![trigger replays(history@, trace, r), states.len()]
            {
                &&& replays(history@, trace, r)
                &&& none_applied(history@, trace, history@.len() as int) ==> *final(handler)
                    == *old(handler)
                &&& states.len() == history@.len() + 1
                &&& states[0] == *old(handler)
                &&& states[history@.len() as int] == *final(handler)
                &&& forall|i: int|
                    0 <= i < history@.len() ==> if #[trigger] applied_at(history@, trace, i) {
                        exists|b: &mut C|
                            mut_ref_current(b) == states[i] && mut_ref_future(b) == states[i + 1]
                                && #[trigger] call_ensures(
                                C::apply,
                                (
                                    b,
                                    trace[i].outcome->Some_0->Ok_0,
                                    EventMeta { timestamp: history@[i].stored->Ok_0.timestamp },
                                ),
                                (),
                            )
                    } else {
                        states[i + 1] == states[i]
                    }
            },
{
    let ghost initial = *handler;
    let ghost mut trace: Seq<FoldStep<C>> = Seq::empty();
    let ghost mut states: Seq<C> = seq![initial];
    let mut positions: Vec<u64> = Vec::new();
    let mut observed: Vec<Timestamp> = Vec::new();
    let mut latest: Option<Timestamp> = None;
    let mut i: usize = 0;
    assert(positions_of(history@).take(0) =~= Seq::<u64>::empty());
    while i < history.len()
        invariant
            i <= history.len(),
            trace.len() == i,
            initial == *old(handler),
            positions@ == taken(positions_of(history@).take(i as int)),
            goes_well(history@, trace, i as int),
            none_applied(history@, trace, i as int) ==> *handler == initial,
            states.len() == i + 1,
            states[0] == initial,
            states[i as int] == *handler,
            forall|j: int|
                0 <= j < i ==> if #[trigger] applied_at(history@, trace, j) {
                    exists|b: &mut C|
                        mut_ref_current(b) == states[j] && mut_ref_future(b) == states[j + 1]
                            && #[trigger] call_ensures(
                            C::apply,
                            (
                                b,
                                trace[j].outcome->Some_0->Ok_0,
                                EventMeta { timestamp: history@[j].stored->Ok_0.timestamp },
                            ),
                            (),
                        )
                } else {
                    states[j + 1] == states[j]
                },
            observed@ == observed_upto(history@, trace, i as int),
            is_latest(latest, observed@),
        decreases history.len() - i,
    {
        let ghost seen = trace;
        let ghost before = *handler;
        let ghost earlier_states = states;
        proof {
            let all = positions_of(history@);
            assert(all.take(i + 1).drop_last() =~= all.take(i as int));
            assert(all.take(i + 1).last() == history@[i as int].position);
        }
        let event = &history[i];
        let last: Option<u64> = if positions.len() > 0 {
            Some(positions[positions.len() - 1])
        } else {
            None
        };
        let fresh = match last {
            Some(l) => event.position > l,
            None => true,
        };
        assert(fresh == is_taken(history@, i as int));
        let ghost mut outcome: Option<Result<C::Query, SerializationError>> = None;
        let mut failure: Option<ExecuteError> = None;
        if fresh {
            positions.push(event.position);
            match &event.stored {
                Ok(stored) => {
                    let name = event.event_type.as_str();
                    let payload = stored.data.as_slice();
                    let decoded = C::Query::from_event(name, payload);
                    proof {
                        outcome = decoded;
                        assert(reads_as::<C::Query>(event.event_type@, stored.data@, decoded));
                    }
                    match reading(decoded) {
                        Ok(Some(read)) => {
                            let meta = EventMeta { timestamp: stored.timestamp };
                            let ghost folded = read;
                            handler.apply(read, meta);
                            assert(handed::<C>(folded, meta));
                            assert(exists|b: &mut C|
                                mut_ref_current(b) == before && mut_ref_future(b) == *handler
                                    && #[trigger] call_ensures(C::apply, (b, folded, meta), ()));
                            let ghost earlier = observed@;
                            let newest = later_of(latest, stored.timestamp);
                            observed.push(stored.timestamp);
                            proof {
                                assert(observed@[earlier.len() as int] == stored.timestamp);
                                if newest != stored.timestamp {
                                    let k = choose|k: int|
                                        0 <= k < earlier.len() && earlier[k] == newest;
                                    assert(observed@[k] == newest);
                                }
                                assert forall|k: int|
                                    0 <= k < observed@.len() implies newest.is_at_or_after(
                                    #[trigger] observed@[k],
                                ) by {
                                    if k < earlier.len() {
                                        assert(latest.unwrap().is_at_or_after(earlier[k]));
                                    }
                                }
                            }
                            latest = Some(newest);
                        },
                        Ok(None) => {},
                        Err(e) => {
                            failure = Some(e);
                        },
                    }
                },
                Err(e) => {
                    let cause = SerializationError { message: e.message.clone() };
                    assert(cause == *e);
                    failure = Some(ExecuteError::Serialization(cause));
                },
            }
        }
        match failure {
            Some(e) => {
                proof {
                    let n = history@.len();
                    let full = stopped(seen, FoldStep::<C> { outcome }, n);
                    assert(full[i as int].outcome == outcome);
                    assert(full =~= stopped(seen, full[i as int], n));
                    lemma_stops(history@, seen, full, i as int, e);
                    assert(replays(history@, full, Err::<Replayed, ExecuteError>(e)));
                    let ends = Seq::new(
                        (n + 1) as nat,
                        |j: int|
                            if j <= i {
                                earlier_states[j]
                            } else {
                                before
                            },
                    );
                    assert forall|j: int| 0 <= j < n implies if #[trigger] applied_at(
                        history@,
                        full,
                        j,
                    ) {
                        exists|b: &mut C|
                            mut_ref_current(b) == ends[j] && mut_ref_future(b) == ends[j + 1]
                                && #[trigger] call_ensures(
                                C::apply,
                                (
                                    b,
                                    full[j].outcome->Some_0->Ok_0,
                                    EventMeta { timestamp: history@[j].stored->Ok_0.timestamp },
                                ),
                                (),
                            )
                    } else {
                        ends[j + 1] == ends[j]
                    } by {
                        if j < i {
                            assert(full[j] == seen[j]);
                            assert(ends[j] == earlier_states[j]);
                            assert(ends[j + 1] == earlier_states[j + 1]);
                            assert(applied_at(history@, seen, j) == applied_at(history@, full, j));
                        } else {
                            assert(full[j].outcome == (if j == i {
                                outcome
                            } else {
                                None
                            }));
                            assert(!applied_at(history@, full, j));
                            assert(ends[j + 1] == before);
                            assert(ends[j] == before);
                        }
                    }
                    assert(ends.len() == n + 1);
                }
                return Err(e);
            },
            None => {},
        }
        proof {
            trace = seen.push(FoldStep::<C> { outcome });
            assert(step_holds(history@, trace, i as int));
            assert(!fails_at(history@, trace, i as int));
            lemma_goes_on(history@, seen, trace, i as int);
            states = earlier_states.push(*handler);
            assert forall|j: int| 0 <= j < i + 1 implies if #[trigger] applied_at(
                history@,
                trace,
                j,
            ) {
                exists|b: &mut C|
                    mut_ref_current(b) == states[j] && mut_ref_future(b) == states[j + 1]
                        && #[trigger] call_ensures(
                        C::apply,
                        (
                            b,
                            trace[j].outcome->Some_0->Ok_0,
                            EventMeta { timestamp: history@[j].stored->Ok_0.timestamp },
                        ),
                        (),
                    )
            } else {
                states[j + 1] == states[j]
            } by {
                if j < i {
                    assert(trace[j] == seen[j]);
                    assert(states[j] == earlier_states[j]);
                    assert(states[j + 1] == earlier_states[j + 1]);
                    assert(applied_at(history@, seen, j) == applied_at(history@, trace, j));
                } else {
                    assert(states[j] == before);
                    assert(states[j + 1] == *handler);
                    assert(trace[j].outcome == outcome);
                    if !applied_at(history@, trace, j) {
                        assert(*handler == before);
                    }
                }
            }
        }
        i = i + 1;
    }
    proof {
        assert(positions_of(history@).take(i as int) =~= positions_of(history@));
        assert(replays(
            history@,
            trace,
            Ok::<Replayed, ExecuteError>(Replayed { positions, observed, latest }),
        ));
    }
    Ok(Replayed { positions, observed, latest })
}

/// A fold that has gone well up to the event at index `i` and does not fail
/// there has gone well up to the next event.
proof fn lemma_goes_on<C: Command>(
    history: Seq<HistoryEvent>,
    seen: Seq<FoldStep<C>>,
    trace: Seq<FoldStep<C>>,
    i: int,
)
    requires
        0 <= i < history.len(),
        seen.len() == i,
        trace == seen.push(trace[i]),
        goes_well(history, seen, i),
        step_holds(history, trace, i),
        !fails_at(history, trace, i),
    ensures
        goes_well(history, trace, i + 1),
        observed_upto(history, trace, i) == observed_upto(history, seen, i),
        none_applied(history, trace, i + 1) ==> none_applied(history, seen, i) && !applied_at(
            history,
            trace,
            i,
        ),
{
    assert forall|j: int| 0 <= j < i + 1 implies #[trigger] step_holds(history, trace, j)
        && !fails_at(history, trace, j) by {
        if j < i {
            assert(step_holds(history, seen, j));
            assert(trace[j] == seen[j]);
        }
    }
    lemma_observed_prefix(history, seen, trace, i);
    if none_applied(history, trace, i + 1) {
        assert(!applied_at(history, trace, i));
        assert forall|j: int| 0 <= j < i implies !applied_at(history, seen, j) by {
            assert(!applied_at(history, trace, j));
            assert(trace[j] == seen[j]);
        }
    }
}

/// The record of a fold that stops: what was seen before the stop, what
/// happened at the stop, and nothing for the events after it.
pub open spec fn stopped<C: Command>(
    seen: Seq<FoldStep<C>>,
    stop: FoldStep<C>,
    n: nat,
) -> Seq<FoldStep<C>> {
    Seq::new(
        n,
        |j: int|
            if j < seen.len() {
                seen[j]
            } else if j == seen.len() {
                stop
            } else {
                FoldStep { outcome: None }
            },
    )
}

/// A fold that has gone well up to the event at index `i` and fails there
/// stops there.
proof fn lemma_stops<C: Command>(
    history: Seq<HistoryEvent>,
    seen: Seq<FoldStep<C>>,
    full: Seq<FoldStep<C>>,
    i: int,
    e: ExecuteError,
)
    requires
        0 <= i < history.len(),
        seen.len() == i,
        full == stopped(seen, full[i], history.len()),
        goes_well(history, seen, i),
        step_holds(history, full, i),
        fails_at(history, full, i),
        e is Serialization,
        is_cause(history, full, i, e->Serialization_0),
    ensures
        stops_at(history, full, i, e),
        replays(history, full, Err::<Replayed, ExecuteError>(e)),
        none_applied(history, full, history.len() as int) ==> none_applied(history, seen, i),
{
    assert forall|j: int| 0 <= j < i implies #[trigger] step_holds(history, full, j) && !fails_at(
        history,
        full,
        j,
    ) by {
        assert(step_holds(history, seen, j));
        assert(full[j] == seen[j]);
    }
    assert forall|j: int| i < j < history.len() implies (#[trigger] full[j]).outcome.is_none() by {}
    assert(stops_at(history, full, i, e));
    if none_applied(history, full, history.len() as int) {
        assert forall|j: int| 0 <= j < i implies !applied_at(history, seen, j) by {
            assert(!applied_at(history, full, j));
            assert(full[j] == seen[j]);
        }
    }
}

/// What follows from the handler's decision: what it emits, or the end of the
/// execution as a command error with the handler's reason.
pub open spec fn decision(outcome: Result<Emit, CommandError>) -> Result<Emit, ExecuteError> {
    match outcome {
        Ok(emit) => Ok(emit),
        Err(e) => Err(ExecuteError::Command(e)),
    }
}

/// What follows from the handler's decision: a refusal ends the execution as
/// a command error.
pub fn decided(outcome: Result<Emit, CommandError>) -> (r: Result<Emit, ExecuteError>)
    ensures
        r == decision(outcome),
{
    match outcome {
        Ok(emit) => Ok(emit),
        Err(e) => Err(ExecuteError::Command(e)),
    }
}

/// Lets the handler decide: the result is what follows from what the handler
/// gave for the input.
pub fn conclude<C: Command>(handler: C, input: &C::Input) -> (r: Result<Emit, ExecuteError>)
    ensures
        exists|outcome: Result<Emit, CommandError>| #[trigger]
            call_ensures(C::handle, (handler, input), outcome) && r == decision(outcome),
{
    decided(handler.handle(input))
}

/// What follows from the hook before the commit, where the hook has to
/// complete at once: `polled` holds its outcome, or nothing if it would have
/// had to wait. A hook that would wait ends the execution, and so does one
/// that refuses.
pub fn hook_outcome(polled: Option<Result<(), CommandError>>) -> (r: Result<(), ExecuteError>)
    ensures
        match polled {
            Some(Ok(_)) => r is Ok,
            Some(Err(e)) => r == Err::<(), ExecuteError>(ExecuteError::Command(e)),
            None => r == Err::<(), ExecuteError>(ExecuteError::HookSuspended),
        },
{
    match polled {
        Some(Ok(_)) => Ok(()),
        Some(Err(e)) => Err(ExecuteError::Command(e)),
        None => Err(ExecuteError::HookSuspended),
    }
}

/// An event in the form in which the store takes it.
#[derive(Clone, Debug)]
pub struct WireEvent {
    /// The event type name.
    pub event_type: String,
    /// The tags under which the event is indexed.
    pub tags: Vec<String>,
    /// The envelope and the payload.
    pub stored: StoredEventData,
    /// The event's own identifier.
    pub uuid: Option<u128>,
}

/// Whether `wire` is the emitted event `emitted` under `envelope`: the same
/// type and payload, the tags of its present domain-ID values, the envelope,
/// and a random UUID of its own.
pub open spec fn encodes(
    wire: WireEvent,
    emitted: EmittedEventView,
    envelope: EventEnvelope,
) -> bool {
    &&& wire.event_type@ == emitted.event_type
    &&& wire.tags.deep_view() == tags_of(emitted.domain_ids)
    &&& wire.stored.envelope_spec() == envelope
    &&& wire.stored.data@ == emitted.data
    &&& wire.uuid.is_some()
    &&& is_random_uuid(wire.uuid.unwrap())
}

/// No domain-ID field name of any emitted event holds the tag separator.
pub open spec fn emit_well_named(emit: Seq<EmittedEventView>) -> bool {
    forall|i: int| 0 <= i < emit.len() ==> fields_well_named((#[trigger] emit[i]).domain_ids)
}

/// Decides whether no domain-ID field name of any emitted event holds the tag
/// separator.
pub fn well_named(emit: &Emit) -> (r: bool)
    ensures
        r == emit_well_named(emit@),
{
    let mut i: usize = 0;
    while i < emit.events.len()
        invariant
            i <= emit.events@.len(),
            forall|j: int| 0 <= j < i ==> fields_well_named((#[trigger] emit@[j]).domain_ids),
        decreases emit.events@.len() - i,
    {
        if !emit.events[i].domain_ids.well_named() {
            assert(!fields_well_named(emit@[i as int].domain_ids));
            return false;
        }
        i = i + 1;
    }
    true
}

/// Encodes one emitted event for the store.
pub fn encode_event(emitted: EmittedEvent, envelope: EventEnvelope) -> (wire: WireEvent)
    requires
        fields_well_named(emitted.domain_ids@),
    ensures
        encodes(wire, emitted@, envelope),
{
    let tags = emitted.domain_ids.tags();
    WireEvent {
        event_type: emitted.event_type,
        tags,
        stored: StoredEventData::new(envelope, emitted.data),
        uuid: Some(fresh_uuid()),
    }
}

/// The condition of an append: it fails if events that match the query have
/// been stored after the given position.
#[derive(Clone, Debug)]
pub struct AppendCondition {
    /// The query whose matches make the append fail.
    pub fail_if_events_match: Vec<QueryItem>,
    /// The position after which matches count.
    pub after: Option<u64>,
}

/// The outcome of a command execution.
#[derive(Clone, Debug)]
pub struct ExecuteResult {
    /// The position of the last appended event, or the head that was read if
    /// nothing was appended.
    pub position: Option<u64>,
    /// The events that were appended.
    pub events: Vec<WireEvent>,
}

/// What remains to be done once the handler has decided.
pub enum Decision {
    /// Nothing was emitted: the execution is over.
    Nothing(ExecuteResult),
    /// Append the events under the condition.
    Append { events: Vec<WireEvent>, condition: AppendCondition },
}

/// The time of emission for a clock that reads `clock` after a fold whose
/// latest observed time is `latest`: the clock's reading, unless the handler
/// was shown a later time, and then that time.
pub open spec fn emission_time_spec(clock: Timestamp, latest: Option<Timestamp>) -> Timestamp {
    match latest {
        Some(l) => if clock.is_at_or_after(l) {
            clock
        } else {
            l
        },
        None => clock,
    }
}

/// Fixes the time of emission: at or after the clock's reading and at or
/// after every time that the handler was shown.
pub fn emission_time(clock: Timestamp, latest: Option<Timestamp>) -> (t: Timestamp)
    ensures
        t == emission_time_spec(clock, latest),
        t.is_at_or_after(clock),
        latest.is_some() ==> t.is_at_or_after(latest.unwrap()),
{
    match latest {
        Some(l) => if clock.at_or_after(&l) {
            clock
        } else {
            l
        },
        None => clock,
    }
}

/// Plans the append for what a handler emitted: nothing if it emitted
/// nothing, and else the emitted events in order, each under the envelope of
/// this execution at the time of emission, on condition that nothing matching
/// the query that selected the history has been stored after `head`. The time
/// of emission is fixed from the clock's reading `clock` and the latest time
/// `latest` that the fold showed the handler.
pub fn plan_append(
    emit: Emit,
    context: &CommandContext,
    clock: Timestamp,
    latest: Option<Timestamp>,
    head: Option<u64>,
    query: Vec<QueryItem>,
) -> (r: Decision)
    requires
        emit_well_named(emit@),
    ensures
        match r {
            Decision::Nothing(result) => emit@.len() == 0 && result.position == head
                && result.events@.len() == 0,
            Decision::Append { events, condition } => {
                &&& emit@.len() > 0
                &&& condition.after == head
                &&& condition.fail_if_events_match == query
                &&& events@.len() == emit@.len()
                &&& forall|i: int|
                    0 <= i < events@.len() ==> encodes(
                        #[trigger] events@[i],
                        emit@[i],
                        context.envelope_spec(emission_time_spec(clock, latest)),
                    )
            },
        },
{
    if emit.is_empty() {
        return Decision::Nothing(ExecuteResult { position: head, events: Vec::new() });
    }
    let now = emission_time(clock, latest);
    let envelope = context.envelope(now);
    let ghost emitted = emit@;
    let pending = emit.into_events();
    let mut events: Vec<WireEvent> = Vec::new();
    for e in iter: pending
        invariant
            envelope == context.envelope_spec(emission_time_spec(clock, latest)),
            emit_well_named(emitted),
            iter.seq().len() == emitted.len(),
            forall|k: int| 0 <= k < iter.seq().len() ==> (#[trigger] iter.seq()[k])@ == emitted[k],
            events@.len() == iter.index(),
            forall|k: int|
                0 <= k < events@.len() ==> encodes(#[trigger] events@[k], emitted[k], envelope),
    {
        assert(fields_well_named(emitted[iter.index() as int].domain_ids));
        let wire = encode_event(e, envelope);
        events.push(wire);
    }
    let condition = AppendCondition { fail_if_events_match: query, after: head };
    Decision::Append { events, condition }
}

/// The outcome of an execution whose events were appended, the last of them
/// at `new_position`.
pub fn finish(events: Vec<WireEvent>, new_position: u64) -> (r: ExecuteResult)
    ensures
        r.position == Some(new_position),
        r.events == events,
{
    ExecuteResult { position: Some(new_position), events }
}

} // verus!
