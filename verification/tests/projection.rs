use esruntime::envelope::{CommandContext, StoredEventData, Timestamp};
use esruntime::error::{ProjectionError, SerializationError};
use esruntime::projection::{
    interpret, start_position, stored_event, Arrival, FlushConfig, FlushPlan, ProjectionRunner,
    ProjectionRunnerBuilder, Step, Wait, NANOS_PER_SECOND,
};
use esruntime::query::QueryItem;

const SECOND: u64 = NANOS_PER_SECOND;

fn config() -> FlushConfig {
    FlushConfig::default()
}

#[test]
fn default_flush_limits() {
    let c = FlushConfig::default();
    assert_eq!(c.live_events_interval, 1);
    assert_eq!(c.live_time_interval, 1_000_000_000);
    assert_eq!(c.replay_events_interval, 500);
    assert_eq!(c.replay_time_interval, 10_000_000_000);
}

#[test]
fn flush_is_due_by_count_or_by_time() {
    let c = config();
    // replaying: 500 events or 10 s
    assert!(!c.should_flush(499, 0, true));
    assert!(c.should_flush(500, 0, true));
    assert!(c.should_flush(501, 0, true));
    assert!(!c.should_flush(0, 10 * SECOND - 1, true));
    assert!(c.should_flush(0, 10 * SECOND, true));
    // live: 1 event or 1 s
    assert!(!c.should_flush(0, 0, false));
    assert!(c.should_flush(1, 0, false));
    assert!(!c.should_flush(0, SECOND - 1, false));
    assert!(c.should_flush(0, SECOND, false));
}

#[test]
fn reading_starts_just_after_the_checkpoint() {
    assert_eq!(start_position(None), None);
    assert_eq!(start_position(Some(0)), Some(1));
    assert_eq!(start_position(Some(500)), Some(501));
}

#[test]
fn runner_starts_at_its_checkpoint() {
    let r = ProjectionRunner::new(Some(7), Some(9), config(), 123);
    assert_eq!(r.position, Some(7));
    assert_eq!(r.last_flushed_position, Some(7));
    assert_eq!(r.head, Some(9));
    assert_eq!(r.events_since_flush, 0);
    assert_eq!(r.last_flushed_at, 123);
    assert!(!r.transaction_open);
}

#[test]
fn replaying_lasts_up_to_the_head() {
    let at = |position, head| ProjectionRunner {
        position,
        ..ProjectionRunner::new(None, head, config(), 0)
    };
    assert!(at(None, None).is_replaying());
    assert!(at(None, Some(3)).is_replaying());
    assert!(at(Some(2), Some(3)).is_replaying());
    assert!(at(Some(3), Some(3)).is_replaying());
    assert!(!at(Some(4), Some(3)).is_replaying());
    assert!(!at(Some(0), None).is_replaying());
}

#[test]
fn wait_is_unbounded_until_something_waits_to_be_flushed() {
    let mut r = ProjectionRunner::new(None, Some(100), config(), 50);
    assert!(matches!(r.wait(), Wait::Unbounded));
    r.transaction_begun();
    assert!(r.handled(1, 60).is_none());
    // replaying: ten seconds after the last flush
    match r.wait() {
        Wait::Until(deadline) => assert_eq!(deadline, 50 + 10 * SECOND as u128),
        Wait::Unbounded => panic!("an event waits to be flushed"),
    }
}

#[test]
fn wait_uses_the_live_limit_beyond_the_head() {
    let live = FlushConfig { live_events_interval: 10, ..config() };
    let mut r = ProjectionRunner::new(Some(5), Some(5), live, 50);
    r.transaction_begun();
    assert!(r.handled(6, 60).is_none());
    match r.wait() {
        Wait::Until(deadline) => assert_eq!(deadline, 50 + SECOND as u128),
        Wait::Unbounded => panic!("an event waits to be flushed"),
    }
}

#[test]
fn stream_end_stops_the_run() {
    let mut r = ProjectionRunner::new(None, None, config(), 0);
    assert!(matches!(r.next(Arrival::End, 5), Step::Done));
}

#[test]
fn an_event_opens_a_transaction_once_per_window() {
    let mut r = ProjectionRunner::new(None, Some(10), config(), 0);
    match r.next(Arrival::Event, 1) {
        Step::Handle { begin } => assert!(begin),
        _ => panic!("the event goes to the handler"),
    }
    r.transaction_begun();
    assert!(r.handled(1, 1).is_none());
    match r.next(Arrival::Event, 2) {
        Step::Handle { begin } => assert!(!begin),
        _ => panic!("the event goes to the handler"),
    }
}

#[test]
fn a_deadline_flushes_what_is_waiting() {
    let mut r = ProjectionRunner::new(Some(3), Some(100), config(), 0);
    r.transaction_begun();
    assert!(r.handled(4, 10).is_none());
    assert!(r.handled(5, 20).is_none());
    // before the limit nothing is due
    assert!(matches!(r.next(Arrival::Deadline, 10 * SECOND - 1), Step::Continue));
    let plan = match r.next(Arrival::Deadline, 10 * SECOND) {
        Step::Flush(plan) => plan,
        _ => panic!("a flush is due"),
    };
    assert_eq!(plan.expected, Some(3));
    assert_eq!(plan.position, 5);
    assert!(plan.is_replaying);
    assert_eq!(r.position, None);
    assert!(!r.transaction_open);
    assert_eq!(r.events_since_flush, 2);

    r.flushed(plan, 10 * SECOND + 7);
    assert_eq!(r.events_since_flush, 0);
    assert_eq!(r.last_flushed_position, Some(5));
    assert_eq!(r.last_flushed_at, 10 * SECOND + 7);
}

#[test]
fn flush_without_position_or_transaction_does_nothing() {
    let mut r = ProjectionRunner::new(None, None, config(), 0);
    assert!(r.flush(true).is_none());
    assert!(!r.transaction_open);

    // a position without a transaction stays, and nothing is flushed
    let mut r = ProjectionRunner::new(Some(4), None, config(), 0);
    assert!(r.flush(false).is_none());
    assert_eq!(r.position, Some(4));
    assert_eq!(r.last_flushed_position, Some(4));

    // a transaction without a position stays open
    let mut r = ProjectionRunner::new(None, None, config(), 0);
    r.transaction_begun();
    assert!(r.flush(true).is_none());
    assert!(r.transaction_open);
}

#[test]
fn a_failed_flush_leaves_the_counters() {
    let mut r = ProjectionRunner::new(Some(3), Some(100), config(), 0);
    r.transaction_begun();
    assert!(r.handled(4, 1).is_none());
    let plan = r.flush_if_necessary(11 * SECOND).unwrap();
    assert_eq!((plan.expected, plan.position), (Some(3), 4));
    // the caller reports nothing: the save failed
    assert_eq!(r.events_since_flush, 1);
    assert_eq!(r.last_flushed_position, Some(3));
    assert_eq!(r.last_flushed_at, 0);
}

#[test]
fn live_events_are_flushed_one_by_one() {
    let mut r = ProjectionRunner::new(Some(10), Some(10), config(), 0);
    let mut saved = Vec::new();
    for position in 11..=13u64 {
        match r.next(Arrival::Event, position) {
            Step::Handle { begin } => {
                assert!(begin);
                r.transaction_begun();
            }
            _ => panic!("the event goes to the handler"),
        }
        let plan = r.handled(position, position).unwrap();
        assert!(!plan.is_replaying);
        saved.push((plan.expected, plan.position));
        r.flushed(plan, position);
    }
    assert_eq!(saved, vec![(Some(10), 11), (Some(11), 12), (Some(12), 13)]);
}

/// Runs the events at the given positions through a runner as its caller
/// would, and gives the flushes in order.
fn drive(r: &mut ProjectionRunner, positions: std::ops::RangeInclusive<u64>) -> Vec<FlushPlan> {
    let mut flushes = Vec::new();
    for position in positions {
        if let Step::Handle { begin: true } = r.next(Arrival::Event, 0) {
            r.transaction_begun();
        }
        if let Some(plan) = r.handled(position, 0) {
            r.flushed(plan, 0);
            flushes.push(plan);
        }
    }
    flushes
}

#[test]
fn replay_flushes_every_five_hundred_events_and_recovers_from_a_crash() {
    // 600 events of history; the runner stops in the middle of event 501.
    let mut r = ProjectionRunner::new(None, Some(600), config(), 0);
    let flushes = drive(&mut r, 1..=500);
    assert_eq!(flushes.len(), 1);
    assert_eq!(flushes[0].expected, None);
    assert_eq!(flushes[0].position, 500);
    assert!(flushes[0].is_replaying);
    assert_eq!(r.last_flushed_position, Some(500));

    // restart: the checkpoint holds 500
    let built = ProjectionRunnerBuilder::new(()).build(vec!["T".to_string()], Some(500), Some(600), 0);
    assert_eq!(built.from, Some(501));
    let mut r = built.runner;
    let flushes = drive(&mut r, 501..=600);
    assert!(flushes.is_empty(), "100 events are below the replay limit");
    match r.next(Arrival::Deadline, 10 * SECOND) {
        Step::Flush(plan) => {
            assert_eq!(plan.expected, Some(500));
            assert_eq!(plan.position, 600);
        }
        _ => panic!("a flush is due"),
    }
}

#[test]
fn saved_positions_increase_along_a_run() {
    let small = FlushConfig { replay_events_interval: 3, ..config() };
    let mut r = ProjectionRunner::new(Some(2), Some(10), small, 0);
    let flushes = drive(&mut r, 3..=14);
    let saved: Vec<u64> = flushes.iter().map(|p| p.position).collect();
    assert_eq!(saved, vec![5, 8, 11, 12, 13, 14]);
    let mut expected = Some(2);
    for plan in &flushes {
        assert_eq!(plan.expected, expected);
        assert!(plan.expected.map_or(true, |e| e < plan.position));
        expected = Some(plan.position);
    }
    assert!(saved.windows(2).all(|w| w[0] < w[1]));
}

#[test]
fn builder_sets_limits_and_query() {
    let b = ProjectionRunner::builder("first")
        .flush_live_events_interval(5)
        .flush_live_time_interval(2 * SECOND)
        .flush_replay_events_interval(50)
        .flush_replay_time_interval(3 * SECOND)
        .checkpoint("second");
    assert_eq!(b.checkpoint, "second");
    assert!(b.query.is_none());
    assert_eq!(b.flush_config.live_events_interval, 5);
    assert_eq!(b.flush_config.live_time_interval, 2 * SECOND);
    assert_eq!(b.flush_config.replay_events_interval, 50);
    assert_eq!(b.flush_config.replay_time_interval, 3 * SECOND);

    let built = b.build(vec!["A".to_string(), "B".to_string()], None, Some(4), 9);
    assert_eq!(built.checkpoint, "second");
    assert_eq!(built.from, None);
    assert_eq!(built.runner.head, Some(4));
    assert_eq!(built.runner.last_flushed_at, 9);
    assert_eq!(built.runner.flush_config.replay_events_interval, 50);
    let query = built.query.unwrap();
    assert_eq!(query.len(), 1);
    assert!(query[0].tags.is_empty());
    assert_eq!(query[0].types, vec!["A".to_string(), "B".to_string()]);
}

#[test]
fn builder_keeps_a_query_that_was_set() {
    let item = QueryItem { tags: vec!["t:1".to_string()], types: vec!["A".to_string()] };
    let built = ProjectionRunnerBuilder::new(0u8)
        .query(Some(vec![item]))
        .build(vec!["A".to_string(), "B".to_string()], Some(1), None, 0);
    let query = built.query.unwrap();
    assert_eq!(query.len(), 1);
    assert_eq!(query[0].tags, vec!["t:1".to_string()]);

    let everything = ProjectionRunnerBuilder::new(0u8)
        .query(None)
        .build(vec!["A".to_string()], None, None, 0);
    assert!(everything.query.is_none());
}

#[test]
fn reading_into_the_event_set_decides_what_the_handler_sees() {
    let skipped: Result<Option<u8>, ProjectionError<String>> = interpret(None);
    assert!(matches!(skipped, Ok(None)));
    let given: Result<Option<u8>, ProjectionError<String>> = interpret(Some(Ok(3)));
    assert!(matches!(given, Ok(Some(3))));
    let failed: Result<Option<u8>, ProjectionError<String>> =
        interpret(Some(Err(SerializationError::new("bad".to_string()))));
    match failed {
        Err(ProjectionError::Serialize(e)) => assert_eq!(e.message, "bad"),
        _ => panic!("the payload cannot be read"),
    }
}

#[test]
fn stored_event_carries_position_envelope_and_payload() {
    let ctx = CommandContext::triggered(11, 12);
    let when = Timestamp { seconds: 5, nanos: 6 };
    let stored = StoredEventData::new(ctx.envelope(when), vec![1]);
    let e = stored_event(99, 7, "T".to_string(), vec!["a:b".to_string()], &stored, "payload");
    assert_eq!(e.id, 99);
    assert_eq!(e.position, 7);
    assert_eq!(e.event_type, "T");
    assert_eq!(e.tags, vec!["a:b".to_string()]);
    assert_eq!(e.timestamp, when);
    assert_eq!(e.correlation_id, 11);
    assert_eq!(e.causation_id, ctx.command_id);
    assert_eq!(e.triggered_by, Some(12));
    assert_eq!(e.data, "payload");
}

#[test]
fn a_deadline_with_nothing_waiting_changes_nothing() {
    let mut r = ProjectionRunner::new(Some(4), Some(9), config(), 0);
    assert!(matches!(r.next(Arrival::Deadline, 60 * SECOND), Step::Continue));
    assert_eq!(r.position, Some(4));
    assert_eq!(r.last_flushed_position, Some(4));
    assert_eq!(r.events_since_flush, 0);
    assert_eq!(r.last_flushed_at, 0);
    assert!(!r.transaction_open);
}
