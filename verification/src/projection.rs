//! The projection runner as a state machine: when to wait, when to open a
//! transaction, when to flush, and what a flush records.
//!
//! The caller owns the stream, the clock, the database transaction and the
//! handler. It tells the runner what arrived and carries out what the runner
//! answers. Times are nanoseconds on the caller's monotonic clock.

use vstd::prelude::*;
use vstd::string::*;

use crate::envelope::{StoredEvent, StoredEventData};
use crate::error::{ProjectionError, SerializationError};
use crate::query::{QueryItem, QueryItemView};
use crate::schema::all_types_query;

verus! {

/// When a projection flushes: after a number of events or after a time,
/// whichever comes first, with one pair of limits while replaying history and
/// another once it follows the live stream.
#[derive(Clone, Copy, Debug)]
pub struct FlushConfig {
    /// Events per flush once live.
    pub live_events_interval: u32,
    /// Nanoseconds between flushes once live.
    pub live_time_interval: u64,
    /// Events per flush while replaying.
    pub replay_events_interval: u32,
    /// Nanoseconds between flushes while replaying.
    pub replay_time_interval: u64,
}

/// One second, in nanoseconds.
pub const NANOS_PER_SECOND: u64 = 1_000_000_000;

impl FlushConfig {
    /// Whether a flush is due, `events_since_flush` events and `elapsed`
    /// nanoseconds after the last one.
    pub open spec fn flush_due(
        self,
        events_since_flush: u32,
        elapsed: u64,
        is_replaying: bool,
    ) -> bool {
        if is_replaying {
            events_since_flush >= self.replay_events_interval || elapsed
                >= self.replay_time_interval
        } else {
            events_since_flush >= self.live_events_interval || elapsed >= self.live_time_interval
        }
    }

    /// The time limit in force.
    pub open spec fn time_interval(self, is_replaying: bool) -> u64 {
        if is_replaying {
            self.replay_time_interval
        } else {
            self.live_time_interval
        }
    }

    /// Decides whether a flush is due.
    pub fn should_flush(&self, events_since_flush: u32, elapsed: u64, is_replaying: bool) -> (r:
        bool)
        ensures
            r == self.flush_due(events_since_flush, elapsed, is_replaying),
    {
        if is_replaying {
            events_since_flush >= self.replay_events_interval || elapsed
                >= self.replay_time_interval
        } else {
            events_since_flush >= self.live_events_interval || elapsed >= self.live_time_interval
        }
    }
}

impl FlushConfig {
    /// The limits in force unless others are set: every event or every second
    /// once live; every 500 events or every ten seconds while replaying.
    pub open spec fn default_config() -> FlushConfig {
        FlushConfig {
            live_events_interval: 1,
            live_time_interval: NANOS_PER_SECOND,
            replay_events_interval: 500,
            replay_time_interval: (10 * NANOS_PER_SECOND) as u64,
        }
    }
}

impl Default for FlushConfig {
    /// Every event or every second once live; every 500 events or every ten
    /// seconds while replaying.
    fn default() -> (r: Self)
        ensures
            r == FlushConfig::default_config(),
    {
        FlushConfig {
            live_events_interval: 1,
            live_time_interval: NANOS_PER_SECOND,
            replay_events_interval: 500,
            replay_time_interval: 10 * NANOS_PER_SECOND,
        }
    }
}

/// Whether a position lies at or before another, where an absent position
/// lies before every present one.
pub open spec fn at_or_before(a: Option<u64>, b: Option<u64>) -> bool {
    match (a, b) {
        (None, _) => true,
        (Some(_), None) => false,
        (Some(x), Some(y)) => x <= y,
    }
}

/// How long the caller may wait for the next stream item.
#[derive(Clone, Copy, Debug)]
pub enum Wait {
    /// Until an item arrives or the stream ends.
    Unbounded,
    /// Until the given time at the latest.
    Until(u128),
}

/// What the stream, or the clock, brought.
#[derive(Clone, Copy, Debug)]
pub enum Arrival {
    /// The deadline passed without an item.
    Deadline,
    /// The stream ended.
    End,
    /// An event arrived.
    Event,
}

/// The record that a flush writes: the checkpoint moves from `expected` to
/// `position`, and only if it still stands at `expected`.
#[derive(Clone, Copy, Debug)]
pub struct FlushPlan {
    /// The position last saved, which the checkpoint must still hold.
    pub expected: Option<u64>,
    /// The position to save.
    pub position: u64,
    /// Whether the runner was replaying when the flush began.
    pub is_replaying: bool,
}

/// What the caller does next.
#[derive(Clone, Copy, Debug)]
pub enum Step {
    /// Nothing more will arrive: the run is over.
    Done,
    /// Nothing to do but to wait again.
    Continue,
    /// Carry out the flush and report it with [`ProjectionRunner::flushed`].
    Flush(FlushPlan),
    /// Hand the event to the handler, first opening a transaction if `begin`
    /// is set, and report it with [`ProjectionRunner::handled`].
    Handle { begin: bool },
}

/// The progress of one projection.
#[derive(Clone, Copy, Debug)]
pub struct ProjectionRunner {
    /// The flush limits.
    pub flush_config: FlushConfig,
    /// The store's head when the runner started: up to it the runner replays.
    pub head: Option<u64>,
    /// The last position handed to the handler in the current flush window.
    pub position: Option<u64>,
    /// The last position durably saved.
    pub last_flushed_position: Option<u64>,
    /// Events handled since the last flush.
    pub events_since_flush: u32,
    /// When the last flush completed.
    pub last_flushed_at: u64,
    /// Whether a transaction is open for the current flush window.
    pub transaction_open: bool,
}

/// The position from which a projection reads, given its checkpoint: the one
/// after the checkpoint, or the start of the stream.
pub fn start_position(checkpoint: Option<u64>) -> (from: Option<u64>)
    requires
        checkpoint != Some(u64::MAX),
    ensures
        from == match checkpoint {
            Some(p) => Some((p + 1) as u64),
            None => None,
        },
{
    match checkpoint {
        Some(p) => Some(p + 1),
        None => None,
    }
}

impl ProjectionRunner {
    /// Starts the configuration of a runner that keeps its progress in
    /// `checkpoint`.
    pub fn builder<C>(checkpoint: C) -> (r: ProjectionRunnerBuilder<C>)
        ensures
            r.checkpoint == checkpoint,
            r.query.is_none(),
            r.flush_config == FlushConfig::default_config(),
    {
        ProjectionRunnerBuilder::new(checkpoint)
    }

    /// Whether the runner is replaying history: its position lies at or
    /// before the head it saw when it started.
    pub open spec fn replaying(self) -> bool {
        at_or_before(self.position, self.head)
    }

    /// The time since the last flush, which is zero if the clock stands
    /// before it.
    pub open spec fn elapsed(self, now: u64) -> u64 {
        if now >= self.last_flushed_at {
            (now - self.last_flushed_at) as u64
        } else {
            0
        }
    }

    /// A runner that resumes from `checkpoint`, with the store's head at
    /// `head`, started at time `now`.
    pub fn new(
        checkpoint: Option<u64>,
        head: Option<u64>,
        flush_config: FlushConfig,
        now: u64,
    ) -> (r: Self)
        ensures
            r == (ProjectionRunner {
                flush_config,
                head,
                position: checkpoint,
                last_flushed_position: checkpoint,
                events_since_flush: 0,
                last_flushed_at: now,
                transaction_open: false,
            }),
    {
        ProjectionRunner {
            flush_config,
            head,
            position: checkpoint,
            last_flushed_position: checkpoint,
            events_since_flush: 0,
            last_flushed_at: now,
            transaction_open: false,
        }
    }

    /// Decides whether the runner is replaying.
    pub fn is_replaying(&self) -> (r: bool)
        ensures
            r == self.replaying(),
    {
        match self.position {
            None => true,
            Some(p) => match self.head {
                None => false,
                Some(h) => p <= h,
            },
        }
    }

    /// The wait before the next stream item.
    pub open spec fn wait_spec(self) -> Wait {
        if self.events_since_flush == 0 {
            Wait::Unbounded
        } else {
            Wait::Until(
                (self.last_flushed_at + self.flush_config.time_interval(self.replaying())) as u128,
            )
        }
    }

    /// How long to wait for the next stream item: without limit while nothing
    /// is waiting to be flushed, and else until the time limit in force has
    /// passed since the last flush.
    pub fn wait(&self) -> (w: Wait)
        ensures
            w == self.wait_spec(),
    {
        if self.events_since_flush == 0 {
            Wait::Unbounded
        } else {
            let interval: u64 = if self.is_replaying() {
                self.flush_config.replay_time_interval
            } else {
                self.flush_config.live_time_interval
            };
            let last: u128 = self.last_flushed_at as u128;
            let span: u128 = interval as u128;
            Wait::Until(last + span)
        }
    }

    /// The flush that would begin now, if any: none without a position or
    /// without an open transaction.
    pub open spec fn flush_plan(self, is_replaying: bool) -> Option<FlushPlan> {
        if self.position.is_some() && self.transaction_open {
            Some(
                FlushPlan {
                    expected: self.last_flushed_position,
                    position: self.position.unwrap(),
                    is_replaying,
                },
            )
        } else {
            None
        }
    }

    /// The runner once a flush has begun: the position and the transaction
    /// are taken for it. Without a position or without an open transaction
    /// nothing begins, and the runner stays as it is.
    pub open spec fn flush_begun(self) -> Self {
        if self.position.is_some() && self.transaction_open {
            ProjectionRunner { position: None, transaction_open: false, ..self }
        } else {
            self
        }
    }

    /// Begins a flush. The caller saves the checkpoint, lets the handler
    /// flush, commits, lets the handler act on the commit, and then reports
    /// with [`ProjectionRunner::flushed`]; if a step fails, it reports
    /// nothing, and the counters stay as they are.
    pub fn flush(&mut self, is_replaying: bool) -> (plan: Option<FlushPlan>)
        ensures
            plan == old(self).flush_plan(is_replaying),
            *final(self) == old(self).flush_begun(),
    {
        let position = match self.position {
            Some(p) => p,
            None => {
                return None;
            },
        };
        if !self.transaction_open {
            return None;
        }
        self.position = None;
        self.transaction_open = false;
        Some(FlushPlan { expected: self.last_flushed_position, position, is_replaying })
    }

    /// The runner once the flush `plan` is durable, at time `now`.
    pub open spec fn flush_done(self, plan: FlushPlan, now: u64) -> Self {
        ProjectionRunner {
            events_since_flush: 0,
            last_flushed_at: now,
            last_flushed_position: Some(plan.position),
            ..self
        }
    }

    /// Records that the flush `plan` is durable.
    pub fn flushed(&mut self, plan: FlushPlan, now: u64)
        ensures
            *final(self) == old(self).flush_done(plan, now),
    {
        self.events_since_flush = 0;
        self.last_flushed_at = now;
        self.last_flushed_position = Some(plan.position);
    }

    /// Whether a flush is due at time `now`.
    pub open spec fn flush_needed(self, now: u64) -> bool {
        self.flush_config.flush_due(self.events_since_flush, self.elapsed(now), self.replaying())
    }

    /// Begins a flush if one is due at time `now`.
    pub fn flush_if_necessary(&mut self, now: u64) -> (plan: Option<FlushPlan>)
        ensures
            old(self).flush_needed(now) ==> plan == old(self).flush_plan(old(self).replaying())
                && *final(self) == old(self).flush_begun(),
            !old(self).flush_needed(now) ==> plan.is_none() && *final(self) == *old(self),
    {
        let is_replaying = self.is_replaying();
        let elapsed: u64 = if now >= self.last_flushed_at {
            now - self.last_flushed_at
        } else {
            0
        };
        if self.flush_config.should_flush(self.events_since_flush, elapsed, is_replaying) {
            self.flush(is_replaying)
        } else {
            None
        }
    }

    /// The runner once the handler has taken the event at `position`.
    pub open spec fn event_handled(self, position: u64) -> Self {
        ProjectionRunner {
            position: Some(position),
            events_since_flush: (self.events_since_flush + 1) as u32,
            ..self
        }
    }

    /// Records that the event at `position` went through the handler, or was
    /// passed over as none of the handler's, and begins a flush if one is due.
    pub fn handled(&mut self, position: u64, now: u64) -> (plan: Option<FlushPlan>)
        requires
            old(self).events_since_flush < u32::MAX,
        ensures
            old(self).event_handled(position).flush_needed(now) ==> plan == old(
                self,
            ).event_handled(position).flush_plan(old(self).event_handled(position).replaying())
                && *final(self) == old(self).event_handled(position).flush_begun(),
            !old(self).event_handled(position).flush_needed(now) ==> plan.is_none() && *final(self)
                == old(self).event_handled(position),
    {
        self.position = Some(position);
        self.events_since_flush = self.events_since_flush + 1;
        self.flush_if_necessary(now)
    }

    /// Records that the caller opened a transaction for the flush window.
    pub fn transaction_begun(&mut self)
        ensures
            *final(self) == (ProjectionRunner { transaction_open: true, ..*old(self) }),
    {
        self.transaction_open = true;
    }

    /// Takes what arrived and says what to do: at the end of the stream, stop;
    /// at a deadline, flush if it is due; at an event, hand it to the handler,
    /// in a transaction that is opened if none is.
    pub fn next(&mut self, arrival: Arrival, now: u64) -> (step: Step)
        ensures
            arrival is End ==> step is Done && *final(self) == *old(self),
            arrival is Event ==> step == (Step::Handle { begin: !old(self).transaction_open })
                && *final(self) == *old(self),
            arrival is Deadline ==> {
                &&& old(self).flush_needed(now) ==> *final(self) == old(self).flush_begun()
                    && step == match old(self).flush_plan(old(self).replaying()) {
                    Some(plan) => Step::Flush(plan),
                    None => Step::Continue,
                }
                &&& !old(self).flush_needed(now) ==> *final(self) == *old(self) && step
                    is Continue
            },
    {
        match arrival {
            Arrival::End => Step::Done,
            Arrival::Event => Step::Handle { begin: !self.transaction_open },
            Arrival::Deadline => match self.flush_if_necessary(now) {
                Some(plan) => Step::Flush(plan),
                None => Step::Continue,
            },
        }
    }
}


/// The configuration of a projection runner before it is built.
pub struct ProjectionRunnerBuilder<C> {
    /// Where the runner keeps its progress.
    pub checkpoint: C,
    /// The query, if one was set: the items to read, or everything.
    pub query: Option<Option<Vec<QueryItem>>>,
    /// The flush limits.
    pub flush_config: FlushConfig,
}

/// What a built runner reads, and from where.
pub struct Built<C> {
    /// The runner, at its checkpoint.
    pub runner: ProjectionRunner,
    /// Where the runner keeps its progress.
    pub checkpoint: C,
    /// The items to read, or everything.
    pub query: Option<Vec<QueryItem>>,
    /// The position to read from, or the start of the stream.
    pub from: Option<u64>,
}

impl<C> ProjectionRunnerBuilder<C> {
    /// A configuration with the default flush limits and no query set.
    pub fn new(checkpoint: C) -> (r: Self)
        ensures
            r.checkpoint == checkpoint,
            r.query.is_none(),
            r.flush_config == FlushConfig::default_config(),
    {
        ProjectionRunnerBuilder { checkpoint, query: None, flush_config: FlushConfig::default() }
    }

    /// The same configuration with another checkpoint.
    pub fn checkpoint<T>(self, checkpoint: T) -> (r: ProjectionRunnerBuilder<T>)
        ensures
            r.checkpoint == checkpoint,
            r.query == self.query,
            r.flush_config == self.flush_config,
    {
        ProjectionRunnerBuilder { checkpoint, query: self.query, flush_config: self.flush_config }
    }

    /// Sets the query: the items to read, or everything.
    pub fn query(self, query: Option<Vec<QueryItem>>) -> (r: Self)
        ensures
            r.query == Some(query),
            r.checkpoint == self.checkpoint,
            r.flush_config == self.flush_config,
    {
        ProjectionRunnerBuilder {
            checkpoint: self.checkpoint,
            query: Some(query),
            flush_config: self.flush_config,
        }
    }

    /// Sets the number of events per flush once live.
    pub fn flush_live_events_interval(self, flush_events_interval: u32) -> (r: Self)
        ensures
            r.flush_config == (FlushConfig {
                live_events_interval: flush_events_interval,
                ..self.flush_config
            }),
            r.checkpoint == self.checkpoint,
            r.query == self.query,
    {
        let mut r = self;
        r.flush_config.live_events_interval = flush_events_interval;
        r
    }

    /// Sets the nanoseconds between flushes once live.
    pub fn flush_live_time_interval(self, flush_time_interval: u64) -> (r: Self)
        ensures
            r.flush_config == (FlushConfig {
                live_time_interval: flush_time_interval,
                ..self.flush_config
            }),
            r.checkpoint == self.checkpoint,
            r.query == self.query,
    {
        let mut r = self;
        r.flush_config.live_time_interval = flush_time_interval;
        r
    }

    /// Sets the number of events per flush while replaying.
    pub fn flush_replay_events_interval(self, flush_events_interval: u32) -> (r: Self)
        ensures
            r.flush_config == (FlushConfig {
                replay_events_interval: flush_events_interval,
                ..self.flush_config
            }),
            r.checkpoint == self.checkpoint,
            r.query == self.query,
    {
        let mut r = self;
        r.flush_config.replay_events_interval = flush_events_interval;
        r
    }

    /// Sets the nanoseconds between flushes while replaying.
    pub fn flush_replay_time_interval(self, flush_time_interval: u64) -> (r: Self)
        ensures
            r.flush_config == (FlushConfig {
                replay_time_interval: flush_time_interval,
                ..self.flush_config
            }),
            r.checkpoint == self.checkpoint,
            r.query == self.query,
    {
        let mut r = self;
        r.flush_config.replay_time_interval = flush_time_interval;
        r
    }

    /// Builds the runner for a handler that reads the given event types, from
    /// the position that the checkpoint holds and the head of the store, at
    /// time `now`. Unless a query was set, the runner reads every event of
    /// the handler's event types. It reads from just after the checkpoint.
    pub fn build(
        self,
        event_types: Vec<String>,
        position: Option<u64>,
        head: Option<u64>,
        now: u64,
    ) -> (r: Built<C>)
        requires
            position != Some(u64::MAX),
        ensures
            r.checkpoint == self.checkpoint,
            r.runner == (ProjectionRunner {
                flush_config: self.flush_config,
                head,
                position,
                last_flushed_position: position,
                events_since_flush: 0,
                last_flushed_at: now,
                transaction_open: false,
            }),
            r.from == match position {
                Some(p) => Some((p + 1) as u64),
                None => None,
            },
            match self.query {
                Some(q) => r.query == q,
                None => r.query.is_some() && r.query.unwrap()@.len() == 1 && r.query.unwrap()@[0]@
                    == (QueryItemView { tags: Seq::empty(), types: event_types.deep_view() }),
            },
    {
        let query = match self.query {
            Some(q) => q,
            None => Some(all_types_query(event_types)),
        };
        Built {
            runner: ProjectionRunner::new(position, head, self.flush_config, now),
            checkpoint: self.checkpoint,
            query,
            from: start_position(position),
        }
    }
}

/// What follows from reading a stream event into a handler's event set: an
/// event of the set goes to the handler, an event of another type is passed
/// over, and a payload that cannot be read stops the projection.
pub fn interpret<Q, E>(decoded: Option<Result<Q, SerializationError>>) -> (r: Result<
    Option<Q>,
    ProjectionError<E>,
>)
    ensures
        match decoded {
            None => r == Ok::<Option<Q>, ProjectionError<E>>(None),
            Some(Ok(q)) => r == Ok::<Option<Q>, ProjectionError<E>>(Some(q)),
            Some(Err(e)) => r == Err::<Option<Q>, ProjectionError<E>>(
                ProjectionError::Serialize(e),
            ),
        },
{
    match decoded {
        None => Ok(None),
        Some(Ok(q)) => Ok(Some(q)),
        Some(Err(e)) => Err(ProjectionError::Serialize(e)),
    }
}

/// The stored event that a handler is given: where the event stands, its
/// envelope, and its payload as read.
pub fn stored_event<T>(
    id: u128,
    position: u64,
    event_type: String,
    tags: Vec<String>,
    stored: &StoredEventData,
    data: T,
) -> (r: StoredEvent<T>)
    ensures
        r.id == id,
        r.position == position,
        r.event_type == event_type,
        r.tags == tags,
        r.timestamp == stored.timestamp,
        r.correlation_id == stored.correlation_id,
        r.causation_id == stored.causation_id,
        r.triggered_by == stored.triggered_by,
        r.data == data,
{
    StoredEvent {
        id,
        position,
        event_type,
        tags,
        timestamp: stored.timestamp,
        correlation_id: stored.correlation_id,
        causation_id: stored.causation_id,
        triggered_by: stored.triggered_by,
        data,
    }
}

} // verus!
