//! What holds of every run of a projection.
//!
//! A run is modelled as the sequence of what arrives, each arrival carried
//! through as the runner directs, with every flush that begins succeeding.
//! A run in which a flush fails ends there, and is a prefix of such a run.

use vstd::prelude::*;

use crate::projection::ProjectionRunner;

verus! {

/// One arrival in a run.
pub enum Op {
    /// The event at `position` arrives at time `now` and goes through the
    /// handler.
    Event { position: u64, now: u64 },
    /// The deadline passes at time `now` without an event.
    Deadline { now: u64 },
}

/// A run so far.
pub struct Run {
    /// The runner's state.
    pub state: ProjectionRunner,
    /// The positions durably saved, in the order in which they were saved.
    pub saved: Seq<u64>,
    /// The positions that the handler has seen since the last flush.
    pub window: Seq<u64>,
}

/// The run once a flush has been tried at time `now`: if one is due and has a
/// position and a transaction, it is carried out.
pub open spec fn try_flush(r: Run, now: u64) -> Run {
    if r.state.flush_needed(now) {
        match r.state.flush_plan(r.state.replaying()) {
            Some(plan) => Run {
                state: r.state.flush_begun().flush_done(plan, now),
                saved: r.saved.push(plan.position),
                window: Seq::empty(),
            },
            None => Run { state: r.state.flush_begun(), ..r },
        }
    } else {
        r
    }
}

/// The run after one more arrival.
pub open spec fn after_op(r: Run, op: Op) -> Run {
    match op {
        Op::Event { position, now } => {
            let opened = ProjectionRunner { transaction_open: true, ..r.state };
            try_flush(
                Run {
                    state: opened.event_handled(position),
                    saved: r.saved,
                    window: r.window.push(position),
                },
                now,
            )
        },
        Op::Deadline { now } => try_flush(r, now),
    }
}

/// The run of `start` through `ops`.
pub open spec fn run(start: ProjectionRunner, ops: Seq<Op>) -> Run
    decreases ops.len(),
{
    if ops.len() == 0 {
        Run { state: start, saved: Seq::empty(), window: Seq::empty() }
    } else {
        after_op(run(start, ops.drop_last()), ops.last())
    }
}

/// A runner as it starts: at its checkpoint, with nothing waiting to be
/// flushed and no transaction open.
pub open spec fn fresh(s: ProjectionRunner) -> bool {
    &&& s.position == s.last_flushed_position
    &&& s.events_since_flush == 0
    &&& !s.transaction_open
}

/// The events of `ops` arrive in strictly increasing position order, all
/// beyond `checkpoint`: what a stream read from just after the checkpoint
/// delivers.
pub open spec fn in_stream_order(checkpoint: Option<u64>, ops: Seq<Op>) -> bool {
    &&& forall|i: int, j: int|
        0 <= i < j < ops.len() && (#[trigger] ops[i]) is Event && (#[trigger] ops[j]) is Event
            ==> ops[i]->position < ops[j]->position
    &&& forall|i: int|
        0 <= i < ops.len() && (#[trigger] ops[i]) is Event && checkpoint.is_some()
            ==> checkpoint.unwrap() < ops[i]->position
}

/// Each position is smaller than the ones after it.
pub open spec fn strictly_increasing(s: Seq<u64>) -> bool {
    forall|i: int, j: int| 0 <= i < j < s.len() ==> s[i] < s[j]
}

/// `p` is the position of one of the events of `ops`.
pub open spec fn arrived(ops: Seq<Op>, p: u64) -> bool {
    exists|i: int| 0 <= i < ops.len() && (#[trigger] ops[i]) is Event && ops[i]->position == p
}

/// What holds of a run from a fresh runner through events in stream order.
pub open spec fn run_invariant(checkpoint: Option<u64>, ops: Seq<Op>, r: Run) -> bool {
    let s = r.state;
    &&& strictly_increasing(r.saved)
    &&& strictly_increasing(r.window)
    &&& forall|k: int| 0 <= k < r.saved.len() ==> arrived(ops, #[trigger] r.saved[k])
    &&& forall|k: int| 0 <= k < r.window.len() ==> arrived(ops, #[trigger] r.window[k])
    &&& s.last_flushed_position == (if r.saved.len() > 0 {
        Some(r.saved.last())
    } else {
        checkpoint
    })
    &&& r.window.len() > 0 ==> s.position == Some(r.window.last())
    &&& r.window.len() > 0 && r.saved.len() > 0 ==> r.saved.last() < r.window[0]
    &&& (s.events_since_flush > 0) == (r.window.len() > 0)
    &&& (s.events_since_flush > 0) == s.transaction_open
    &&& s.events_since_flush == 0 || s.events_since_flush < s.flush_config.live_events_interval
        || s.events_since_flush < s.flush_config.replay_events_interval
}

/// The invariant holds along every run from a fresh runner through events in
/// stream order.
pub proof fn lemma_run_invariant(start: ProjectionRunner, ops: Seq<Op>)
    requires
        fresh(start),
        in_stream_order(start.last_flushed_position, ops),
    ensures
        run_invariant(start.last_flushed_position, ops, run(start, ops)),
    decreases ops.len(),
{
    let checkpoint = start.last_flushed_position;
    if ops.len() > 0 {
        let front = ops.drop_last();
        let op = ops.last();
        assert(in_stream_order(checkpoint, front)) by {
            assert forall|i: int, j: int|
                0 <= i < j < front.len() && (#[trigger] front[i]) is Event && (
                #[trigger] front[j]) is Event implies front[i]->position < front[j]->position by {
                assert(ops[i] is Event && ops[j] is Event);
            }
            assert forall|i: int|
                0 <= i < front.len() && (#[trigger] front[i]) is Event
                    && checkpoint.is_some() implies checkpoint.unwrap() < front[i]->position by {
                assert(ops[i] is Event);
            }
        }
        lemma_run_invariant(start, front);
        let before = run(start, front);
        let after = run(start, ops);
        assert forall|p: u64| arrived(front, p) implies arrived(ops, p) by {
            let i = choose|i: int|
                0 <= i < front.len() && (#[trigger] front[i]) is Event && front[i]->position == p;
            assert(ops[i] is Event && ops[i]->position == p);
        }
        assert forall|k: int| 0 <= k < before.saved.len() implies arrived(
            ops,
            #[trigger] before.saved[k],
        ) by {
            assert(arrived(front, before.saved[k]));
        }
        assert forall|k: int| 0 <= k < before.window.len() implies arrived(
            ops,
            #[trigger] before.window[k],
        ) by {
            assert(arrived(front, before.window[k]));
        }
        match op {
            Op::Event { position, now } => {
                let last = ops.len() - 1;
                assert(ops[last] is Event && ops[last]->position == position);
                assert(arrived(ops, position));
                assert forall|p: u64| arrived(front, p) implies p < position by {
                    let i = choose|i: int|
                        0 <= i < front.len() && (#[trigger] front[i]) is Event
                            && front[i]->position == p;
                    assert(ops[i] is Event);
                    assert(ops[i]->position < ops[last]->position);
                }
                let opened = ProjectionRunner { transaction_open: true, ..before.state };
                let mid = Run {
                    state: opened.event_handled(position),
                    saved: before.saved,
                    window: before.window.push(position),
                };
                assert(strictly_increasing(mid.window)) by {
                    assert forall|i: int, j: int|
                        0 <= i < j < mid.window.len() implies mid.window[i] < mid.window[j] by {
                        if j == before.window.len() {
                            assert(arrived(front, before.window[i]));
                        }
                    }
                }
                if before.saved.len() > 0 {
                    assert(arrived(front, before.saved[before.saved.len() - 1]));
                    assert(before.saved.last() < mid.window[0]) by {
                        if before.window.len() == 0 {
                            assert(mid.window[0] == position);
                        } else {
                            assert(mid.window[0] == before.window[0]);
                        }
                    }
                }
                assert(mid.state.events_since_flush == before.state.events_since_flush + 1);
                if mid.state.flush_needed(now) {
                    let plan = mid.state.flush_plan(mid.state.replaying()).unwrap();
                    assert(plan.position == position);
                    assert(strictly_increasing(after.saved)) by {
                        assert forall|i: int, j: int|
                            0 <= i < j < after.saved.len() implies after.saved[i]
                            < after.saved[j] by {
                            if j == before.saved.len() {
                                assert(arrived(front, before.saved[i]));
                            }
                        }
                    }
                    assert(run_invariant(checkpoint, ops, after));
                } else {
                    assert(after == mid);
                    assert(run_invariant(checkpoint, ops, after));
                }
            },
            Op::Deadline { now } => {
                if before.state.events_since_flush == 0 {
                    assert(before.state.flush_plan(before.state.replaying()).is_none());
                    assert(after == before);
                } else if before.state.flush_needed(now) {
                    let plan = before.state.flush_plan(before.state.replaying()).unwrap();
                    let p = plan.position;
                    assert(p == before.window.last());
                    assert(strictly_increasing(after.saved)) by {
                        assert forall|i: int, j: int|
                            0 <= i < j < after.saved.len() implies after.saved[i]
                            < after.saved[j] by {
                            if j == before.saved.len() {
                                assert(before.saved[i] <= before.saved.last());
                                assert(before.window[0] <= before.window.last());
                            }
                        }
                    }
                    assert(arrived(ops, p)) by {
                        assert(arrived(ops, before.window[before.window.len() - 1]));
                    }
                    assert(run_invariant(checkpoint, ops, after));
                } else {
                    assert(after == before);
                }
            },
        }
    }
}

/// Monotone checkpoints: along any run of a projection from its checkpoint
/// through a stream in position order, the positions durably saved are
/// strictly increasing, each beyond the checkpoint the run started from, and
/// every save expects the position saved just before it.
pub proof fn lemma_checkpoints_monotone(start: ProjectionRunner, ops: Seq<Op>)
    requires
        fresh(start),
        in_stream_order(start.last_flushed_position, ops),
    ensures
        strictly_increasing(run(start, ops).saved),
        forall|k: int|
            0 <= k < run(start, ops).saved.len() && start.last_flushed_position.is_some()
                ==> start.last_flushed_position.unwrap() < #[trigger] run(start, ops).saved[k],
        run(start, ops).state.last_flushed_position == (if run(start, ops).saved.len() > 0 {
            Some(run(start, ops).saved.last())
        } else {
            start.last_flushed_position
        }),
{
    lemma_run_invariant(start, ops);
    let r = run(start, ops);
    assert forall|k: int|
        0 <= k < r.saved.len() && start.last_flushed_position.is_some()
            implies start.last_flushed_position.unwrap() < #[trigger] r.saved[k] by {
        assert(arrived(ops, r.saved[k]));
        let i = choose|i: int|
            0 <= i < ops.len() && (#[trigger] ops[i]) is Event && ops[i]->position == r.saved[k];
    }
}

/// At most once per position: along any run of a projection from its
/// checkpoint through a stream in position order, the positions that the
/// handler has seen since the last flush are strictly increasing, so none
/// comes twice, and each lies beyond the last position saved.
pub proof fn lemma_window_without_repeats(start: ProjectionRunner, ops: Seq<Op>)
    requires
        fresh(start),
        in_stream_order(start.last_flushed_position, ops),
    ensures
        strictly_increasing(run(start, ops).window),
        run(start, ops).window.no_duplicates(),
        forall|k: int|
            0 <= k < run(start, ops).window.len() && run(
                start,
                ops,
            ).state.last_flushed_position.is_some() ==> run(
                start,
                ops,
            ).state.last_flushed_position.unwrap() < #[trigger] run(start, ops).window[k],
{
    lemma_run_invariant(start, ops);
    let r = run(start, ops);
    assert forall|i: int, j: int| 0 <= i < r.window.len() && 0 <= j < r.window.len() && i
        != j implies r.window[i] != r.window[j] by {
        if i < j {
            assert(r.window[i] < r.window[j]);
        } else {
            assert(r.window[j] < r.window[i]);
        }
    }
    assert forall|k: int|
        0 <= k < r.window.len() && r.state.last_flushed_position.is_some()
            implies r.state.last_flushed_position.unwrap() < #[trigger] r.window[k] by {
        if r.saved.len() > 0 {
            if k > 0 {
                assert(r.window[0] < r.window[k]);
            }
        } else {
            assert(arrived(ops, r.window[k]));
            let i = choose|i: int|
                0 <= i < ops.len() && (#[trigger] ops[i]) is Event && ops[i]->position
                    == r.window[k];
        }
    }
}

/// In a run through a stream in position order the count of events waiting
/// to be flushed never reaches the limit of its type, so the runner can
/// always take the next event.
pub proof fn lemma_count_stays_in_range(start: ProjectionRunner, ops: Seq<Op>)
    requires
        fresh(start),
        in_stream_order(start.last_flushed_position, ops),
    ensures
        run(start, ops).state.events_since_flush < u32::MAX,
{
    lemma_run_invariant(start, ops);
}


/// A flush moves the checkpoint on: in any state that a run from a checkpoint
/// through a stream in position order reaches, the flush that would begin
/// expects the position last saved and saves a position beyond it.
pub proof fn lemma_flush_advances(start: ProjectionRunner, ops: Seq<Op>, is_replaying: bool)
    requires
        fresh(start),
        in_stream_order(start.last_flushed_position, ops),
    ensures
        match run(start, ops).state.flush_plan(is_replaying) {
            Some(plan) => plan.expected == run(start, ops).state.last_flushed_position && (
            plan.expected.is_some() ==> plan.expected.unwrap() < plan.position),
            None => true,
        },
{
    lemma_run_invariant(start, ops);
    let r = run(start, ops);
    if r.state.flush_plan(is_replaying).is_some() {
        let p = r.window.last();
        assert(r.state.position == Some(p));
        if r.saved.len() > 0 {
            if r.window.len() > 1 {
                assert(r.window[0] < r.window[r.window.len() - 1]);
            }
        } else if start.last_flushed_position.is_some() {
            assert(arrived(ops, r.window[r.window.len() - 1]));
            let i = choose|i: int|
                0 <= i < ops.len() && (#[trigger] ops[i]) is Event && ops[i]->position == p;
        }
    }
}

} // verus!
