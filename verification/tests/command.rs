use esruntime::command::{
    begin, conclude, decided, emission_time, encode_event, finish, hook_outcome, plan_append,
    planned_query, reading, replay, validated, well_named,
    AppendCondition, Command, CommandInput, Decision, ExecuteResult, HistoryEvent, WireEvent,
};
use esruntime::domain_id::{DomainIdBindings, DomainIdValue, DomainIdValues};
use esruntime::emit::{Emit, EmittedEvent};
use esruntime::envelope::{CommandContext, EventMeta, StoredEventData, Timestamp};
use esruntime::error::{CommandError, ErrorCode, ExecuteError, SerializationError, StoreError};
use esruntime::event::{Event, EventSet};
use esruntime::query::{EventDomainIds, QueryItem};
use esruntime::status::{Error, ErrorStatus};
use serde_json::{Number, Value};

fn s(text: &str) -> String {
    text.to_string()
}

fn at(seconds: i64) -> Timestamp {
    Timestamp { seconds, nanos: 0 }
}

fn object(fields: Vec<(&str, Value)>) -> Vec<u8> {
    let mut map = serde_json::Map::new();
    for (k, v) in fields {
        map.insert(s(k), v);
    }
    serde_json::to_vec(&Value::Object(map)).unwrap()
}

fn parse(data: &[u8]) -> Result<Value, SerializationError> {
    serde_json::from_slice(data).map_err(|e| SerializationError::new(e.to_string()))
}

fn text_field(v: &Value, name: &str) -> Result<String, SerializationError> {
    match v.get(name).and_then(|f| f.as_str()) {
        Some(t) => Ok(s(t)),
        None => Err(SerializationError::new(format!("missing field `{name}`"))),
    }
}

fn number_field(v: &Value, name: &str) -> Result<u64, SerializationError> {
    match v.get(name).and_then(|f| f.as_u64()) {
        Some(n) => Ok(n),
        None => Err(SerializationError::new(format!("missing field `{name}`"))),
    }
}

#[derive(Clone, Debug, PartialEq)]
struct OpenedAccount {
    account_id: String,
    initial_balance: u64,
}

impl Event for OpenedAccount {
    fn event_type() -> String {
        s("OpenedAccount")
    }
    fn domain_id_fields() -> Vec<String> {
        vec![s("account_id")]
    }
    fn domain_ids(&self) -> DomainIdValues {
        let mut ids = DomainIdValues::new();
        ids.insert(s("account_id"), DomainIdValue::some(self.account_id.clone()));
        ids
    }
    fn to_bytes(&self) -> Result<Vec<u8>, SerializationError> {
        Ok(object(vec![
            ("account_id", Value::String(self.account_id.clone())),
            ("initial_balance", Value::Number(Number::from(self.initial_balance))),
        ]))
    }
    fn from_bytes(data: &[u8]) -> Result<Self, SerializationError> {
        let v = parse(data)?;
        Ok(OpenedAccount {
            account_id: text_field(&v, "account_id")?,
            initial_balance: number_field(&v, "initial_balance")?,
        })
    }
}

#[derive(Clone, Debug, PartialEq)]
struct SentFunds {
    account_id: String,
    amount: u64,
    recipient_id: Option<String>,
}

impl Event for SentFunds {
    fn event_type() -> String {
        s("SentFunds")
    }
    fn domain_id_fields() -> Vec<String> {
        vec![s("account_id"), s("recipient_id")]
    }
    fn domain_ids(&self) -> DomainIdValues {
        let mut ids = DomainIdValues::new();
        ids.insert(s("account_id"), DomainIdValue::some(self.account_id.clone()));
        ids.insert(s("recipient_id"), DomainIdValue::from_option(self.recipient_id.clone()));
        ids
    }
    fn to_bytes(&self) -> Result<Vec<u8>, SerializationError> {
        Ok(object(vec![
            ("account_id", Value::String(self.account_id.clone())),
            ("amount", Value::Number(Number::from(self.amount))),
            (
                "recipient_id",
                match &self.recipient_id {
                    Some(r) => Value::String(r.clone()),
                    None => Value::Null,
                },
            ),
        ]))
    }
    fn from_bytes(data: &[u8]) -> Result<Self, SerializationError> {
        let v = parse(data)?;
        Ok(SentFunds {
            account_id: text_field(&v, "account_id")?,
            amount: number_field(&v, "amount")?,
            recipient_id: v.get("recipient_id").and_then(|f| f.as_str()).map(s),
        })
    }
}

#[derive(Clone, Debug, PartialEq)]
struct ReceivedFunds {
    account_id: String,
    amount: u64,
    sender_id: Option<String>,
}

impl Event for ReceivedFunds {
    fn event_type() -> String {
        s("ReceivedFunds")
    }
    fn domain_id_fields() -> Vec<String> {
        vec![s("account_id"), s("sender_id")]
    }
    fn domain_ids(&self) -> DomainIdValues {
        let mut ids = DomainIdValues::new();
        ids.insert(s("account_id"), DomainIdValue::some(self.account_id.clone()));
        ids.insert(s("sender_id"), DomainIdValue::from_option(self.sender_id.clone()));
        ids
    }
    fn to_bytes(&self) -> Result<Vec<u8>, SerializationError> {
        Ok(object(vec![
            ("account_id", Value::String(self.account_id.clone())),
            ("amount", Value::Number(Number::from(self.amount))),
            (
                "sender_id",
                match &self.sender_id {
                    Some(r) => Value::String(r.clone()),
                    None => Value::Null,
                },
            ),
        ]))
    }
    fn from_bytes(data: &[u8]) -> Result<Self, SerializationError> {
        let v = parse(data)?;
        Ok(ReceivedFunds {
            account_id: text_field(&v, "account_id")?,
            amount: number_field(&v, "amount")?,
            sender_id: v.get("sender_id").and_then(|f| f.as_str()).map(s),
        })
    }
}

#[derive(Debug, PartialEq)]
enum Query {
    OpenedAccount(OpenedAccount),
    SentFunds(SentFunds),
    ReceivedFunds(ReceivedFunds),
}

impl EventSet for Query {
    fn event_types() -> Vec<String> {
        vec![s("OpenedAccount"), s("SentFunds"), s("ReceivedFunds")]
    }
    fn event_domain_ids() -> Vec<EventDomainIds> {
        vec![
            EventDomainIds { event_type: s("OpenedAccount"), fields: OpenedAccount::domain_id_fields() },
            EventDomainIds { event_type: s("SentFunds"), fields: SentFunds::domain_id_fields() },
            EventDomainIds { event_type: s("ReceivedFunds"), fields: ReceivedFunds::domain_id_fields() },
        ]
    }
    fn from_event(event_type: &str, data: &[u8]) -> Option<Result<Self, SerializationError>> {
        match event_type {
            "OpenedAccount" => Some(OpenedAccount::from_bytes(data).map(Query::OpenedAccount)),
            "SentFunds" => Some(SentFunds::from_bytes(data).map(Query::SentFunds)),
            "ReceivedFunds" => Some(ReceivedFunds::from_bytes(data).map(Query::ReceivedFunds)),
            _ => None,
        }
    }
}

struct TransferInput {
    source: String,
    dest: String,
    amount: u64,
}

impl CommandInput for TransferInput {
    fn domain_id_bindings(&self) -> DomainIdBindings {
        let mut b = DomainIdBindings::new();
        b.bind(s("account_id"), self.source.clone());
        b.bind(s("account_id"), self.dest.clone());
        b
    }
}

#[derive(Default)]
struct TransferFunds {
    balances: Vec<(String, u64)>,
    seen: Vec<Timestamp>,
}

impl TransferFunds {
    fn balance(&mut self, account: &str) -> &mut u64 {
        if let Some(i) = self.balances.iter().position(|(a, _)| a == account) {
            return &mut self.balances[i].1;
        }
        self.balances.push((s(account), 0));
        &mut self.balances.last_mut().unwrap().1
    }
    fn known(&self, account: &str) -> Option<u64> {
        self.balances.iter().find(|(a, _)| a == account).map(|(_, b)| *b)
    }
}

impl Command for TransferFunds {
    type Query = Query;
    type Input = TransferInput;

    fn new() -> Self {
        TransferFunds::default()
    }

    fn validate(input: &TransferInput) -> Result<(), CommandError> {
        if input.amount == 0 {
            return Err(CommandError::invalid_input(s("Amount must be positive")));
        }
        Ok(())
    }

    fn apply(&mut self, event: Query, meta: EventMeta) {
        self.seen.push(meta.timestamp);
        match event {
            Query::OpenedAccount(e) => *self.balance(&e.account_id) = e.initial_balance,
            Query::SentFunds(e) => *self.balance(&e.account_id) -= e.amount,
            Query::ReceivedFunds(e) => *self.balance(&e.account_id) += e.amount,
        }
    }

    fn handle(self, input: &TransferInput) -> Result<Emit, CommandError> {
        if input.amount == 1_000_000 {
            return Ok(Emit::new());
        }
        let available = match self.known(&input.source) {
            Some(b) => b,
            None => return Err(CommandError::rejected(s("Source account does not exist"))),
        };
        if self.known(&input.dest).is_none() {
            return Err(CommandError::rejected(s("Destination account does not exist")));
        }
        if available < input.amount {
            return Err(CommandError::rejected(format!(
                "Insufficient funds: available {}, requested {}",
                available, input.amount
            )));
        }
        Emit::new()
            .try_event(SentFunds {
                account_id: input.source.clone(),
                amount: input.amount,
                recipient_id: Some(input.dest.clone()),
            })
            .and_then(|e| {
                e.try_event(ReceivedFunds {
                    account_id: input.dest.clone(),
                    amount: input.amount,
                    sender_id: Some(input.source.clone()),
                })
            })
            .map_err(|e| CommandError::internal(e.message))
    }
}

/// An event store in memory, with the append condition of a DCB store.
struct Store {
    events: Vec<(u64, WireEvent)>,
    appends: usize,
}

fn matches(item: &QueryItem, event: &WireEvent) -> bool {
    item.types.contains(&event.event_type) && item.tags.iter().all(|t| event.tags.contains(t))
}

impl Store {
    fn new() -> Self {
        Store { events: Vec::new(), appends: 0 }
    }

    fn head(&self) -> Option<u64> {
        self.events.last().map(|(p, _)| *p)
    }

    fn seed<E: Event>(&mut self, event: E, when: Timestamp) {
        let ctx = CommandContext::user_initiated();
        let emitted = EmittedEvent {
            event_type: E::event_type(),
            data: event.to_bytes().unwrap(),
            domain_ids: event.domain_ids(),
        };
        let wire = encode_event(emitted, ctx.envelope(when));
        let position = self.head().map_or(1, |h| h + 1);
        self.events.push((position, wire));
    }

    fn read(&self, query: &[QueryItem]) -> (Vec<HistoryEvent>, Option<u64>) {
        let history = self
            .events
            .iter()
            .filter(|(_, e)| query.iter().any(|item| matches(item, e)))
            .map(|(p, e)| HistoryEvent {
                position: *p,
                event_type: e.event_type.clone(),
                stored: Ok(e.stored.clone()),
            })
            .collect();
        (history, self.head())
    }

    fn append(&mut self, events: Vec<WireEvent>, condition: AppendCondition) -> Result<u64, StoreError> {
        self.appends += 1;
        let conflict = self.events.iter().any(|(p, e)| {
            condition.after.map_or(true, |a| *p > a)
                && condition.fail_if_events_match.iter().any(|item| matches(item, e))
        });
        if conflict {
            return Err(StoreError::IntegrityError(s("condition failed")));
        }
        for e in events {
            let position = self.head().map_or(1, |h| h + 1);
            self.events.push((position, e));
        }
        Ok(self.head().unwrap())
    }
}

struct Pending {
    events: Vec<WireEvent>,
    condition: AppendCondition,
}

fn decide(
    store: &Store,
    input: &TransferInput,
    ctx: &CommandContext,
    now: Timestamp,
) -> Result<Result<Pending, ExecuteResult>, ExecuteError> {
    let started = begin::<TransferFunds>(input)?;
    let (history, head) = store.read(&started.query);
    let mut handler = started.handler;
    let replayed = replay(&mut handler, &history)?;
    let emit = conclude(handler, input)?;
    assert!(well_named(&emit));
    Ok(match plan_append(emit, ctx, now, replayed.latest, head, started.query) {
        Decision::Nothing(result) => Err(result),
        Decision::Append { events, condition } => Ok(Pending { events, condition }),
    })
}

fn commit(store: &mut Store, pending: Pending) -> Result<ExecuteResult, ExecuteError> {
    match store.append(pending.events.clone(), pending.condition) {
        Ok(position) => Ok(finish(pending.events, position)),
        Err(e) => Err(ExecuteError::DCB(e)),
    }
}

fn execute(
    store: &mut Store,
    input: &TransferInput,
    ctx: &CommandContext,
    now: Timestamp,
) -> Result<ExecuteResult, ExecuteError> {
    match decide(store, input, ctx, now)? {
        Ok(pending) => commit(store, pending),
        Err(result) => Ok(result),
    }
}

fn accounts(alice: u64, bob: u64) -> Store {
    let mut store = Store::new();
    store.seed(OpenedAccount { account_id: s("alice"), initial_balance: alice }, at(100));
    store.seed(OpenedAccount { account_id: s("bob"), initial_balance: bob }, at(101));
    store
}

fn transfer(amount: u64) -> TransferInput {
    TransferInput { source: s("alice"), dest: s("bob"), amount }
}

#[test]
fn successful_transfer_appends_two_events() {
    let mut store = accounts(100, 50);
    let ctx = CommandContext::user_initiated();
    let pending = match decide(&store, &transfer(30), &ctx, at(200)).unwrap() {
        Ok(p) => p,
        Err(_) => panic!("nothing to append"),
    };
    assert_eq!(pending.condition.after, Some(2));
    let planned = begin::<TransferFunds>(&transfer(30)).unwrap().query;
    assert_eq!(pending.condition.fail_if_events_match.len(), planned.len());
    for (a, b) in pending.condition.fail_if_events_match.iter().zip(planned.iter()) {
        assert_eq!((&a.tags, &a.types), (&b.tags, &b.types));
    }

    let result = commit(&mut store, pending).unwrap();
    assert_eq!(result.position, Some(4));
    assert_eq!(store.head(), Some(4));
    assert_eq!(result.events.len(), 2);

    let sent = &result.events[0];
    assert_eq!(sent.event_type, "SentFunds");
    assert_eq!(sent.tags, vec![s("account_id:alice"), s("recipient_id:bob")]);
    assert_eq!(
        SentFunds::from_bytes(&sent.stored.data).unwrap(),
        SentFunds { account_id: s("alice"), amount: 30, recipient_id: Some(s("bob")) }
    );
    let received = &result.events[1];
    assert_eq!(received.event_type, "ReceivedFunds");
    assert_eq!(received.tags, vec![s("account_id:bob"), s("sender_id:alice")]);
    assert_eq!(
        ReceivedFunds::from_bytes(&received.stored.data).unwrap(),
        ReceivedFunds { account_id: s("bob"), amount: 30, sender_id: Some(s("alice")) }
    );
}

#[test]
fn insufficient_funds_are_rejected_without_append() {
    let mut store = accounts(50, 50);
    let ctx = CommandContext::user_initiated();
    let err = execute(&mut store, &transfer(100), &ctx, at(200)).unwrap_err();
    match err {
        ExecuteError::Command(e) => {
            assert_eq!(e.code, ErrorCode::Rejected);
            assert!(e.message.contains("Insufficient funds"));
            assert!(e.message.contains("available 50"));
            assert!(e.message.contains("requested 100"));
        }
        other => panic!("unexpected error: {other:?}"),
    }
    assert_eq!(store.appends, 0);
    assert_eq!(store.head(), Some(2));
}

#[test]
fn concurrent_transfers_conflict() {
    let mut store = accounts(100, 50);
    let first = decide(&store, &transfer(30), &CommandContext::user_initiated(), at(200)).unwrap();
    let second = decide(&store, &transfer(30), &CommandContext::user_initiated(), at(200)).unwrap();
    let (first, second) = match (first, second) {
        (Ok(a), Ok(b)) => (a, b),
        _ => panic!("both must have something to append"),
    };

    let won = commit(&mut store, first).unwrap();
    assert_eq!(won.position, Some(4));

    let lost = commit(&mut store, second).unwrap_err();
    match &lost {
        ExecuteError::DCB(StoreError::IntegrityError(_)) => {}
        other => panic!("unexpected error: {other:?}"),
    }
    assert_eq!(store.head(), Some(4));
    assert_eq!(store.events.len(), 4);
    let report = Error::from_execute_error(lost);
    assert_eq!(report.status, ErrorStatus::Conflict);
    assert_eq!(report.status_code, 409);
}

#[test]
fn empty_emit_appends_nothing() {
    let mut store = accounts(100, 50);
    let ctx = CommandContext::user_initiated();
    let result = execute(&mut store, &transfer(1_000_000), &ctx, at(200)).unwrap();
    assert_eq!(result.position, Some(2));
    assert!(result.events.is_empty());
    assert_eq!(store.appends, 0);
}

#[test]
fn empty_emit_on_an_empty_store_has_no_position() {
    let decision =
        plan_append(Emit::new(), &CommandContext::user_initiated(), at(1), None, None, Vec::new());
    match decision {
        Decision::Nothing(result) => {
            assert_eq!(result.position, None);
            assert!(result.events.is_empty());
        }
        Decision::Append { .. } => panic!("nothing was emitted"),
    }
}

#[test]
fn invalid_input_fails_validation_before_any_read() {
    let mut store = accounts(100, 50);
    let ctx = CommandContext::user_initiated();
    let err = execute(&mut store, &transfer(0), &ctx, at(200)).unwrap_err();
    match err {
        ExecuteError::Validation(e) => {
            assert_eq!(e.code, ErrorCode::InvalidInput);
            assert_eq!(e.message, "Amount must be positive");
        }
        other => panic!("unexpected error: {other:?}"),
    }
}

#[test]
fn outcomes_of_validation_and_decision_are_carried_over() {
    assert!(validated(Ok(())).is_ok());
    match validated(Err(CommandError::invalid_input(s("bad")))) {
        Err(ExecuteError::Validation(e)) => assert_eq!(e.message, "bad"),
        other => panic!("unexpected: {other:?}"),
    }
    match decided(Err(CommandError::rejected(s("no")))) {
        Err(ExecuteError::Command(e)) => assert_eq!(e.message, "no"),
        other => panic!("unexpected: {other:?}"),
    }
    assert_eq!(decided(Ok(Emit::new())).unwrap().len(), 0);
}

#[test]
fn every_appended_event_carries_the_envelope_of_its_command() {
    let mut store = accounts(100, 50);
    let ctx = CommandContext::triggered(7, 9);
    let now = Timestamp { seconds: 200, nanos: 5 };
    let result = execute(&mut store, &transfer(30), &ctx, now).unwrap();
    assert_eq!(result.events.len(), 2);
    for e in &result.events {
        assert_eq!(e.stored.causation_id, ctx.command_id);
        assert_eq!(e.stored.correlation_id, 7);
        assert_eq!(e.stored.triggered_by, Some(9));
        assert_eq!(e.stored.timestamp, now);
        assert!(e.stored.timestamp.at_or_after(&at(101)));
        assert_eq!(e.stored.envelope(), ctx.envelope(now));
    }
}

#[test]
fn every_appended_event_has_a_random_uuid_of_its_own() {
    let mut store = accounts(100, 50);
    let result = execute(&mut store, &transfer(30), &CommandContext::user_initiated(), at(200)).unwrap();
    let a = result.events[0].uuid.unwrap();
    let b = result.events[1].uuid.unwrap();
    assert_ne!(a, b);
    for id in [a, b] {
        assert_eq!((id >> 76) & 0xf, 4, "version");
        assert_eq!((id >> 62) & 0x3, 2, "variant");
    }
}

#[test]
fn contexts_are_made_in_three_ways() {
    let user = CommandContext::user_initiated();
    assert_eq!(user.command_id, user.correlation_id);
    assert_eq!(user.triggered_by, None);
    assert_eq!((user.command_id >> 76) & 0xf, 4);

    let next = CommandContext::with_correlation(user.correlation_id);
    assert_eq!(next.correlation_id, user.correlation_id);
    assert_ne!(next.command_id, user.command_id);
    assert_eq!(next.triggered_by, None);

    let saga = CommandContext::triggered(user.correlation_id, 42);
    assert_eq!(saga.correlation_id, user.correlation_id);
    assert_eq!(saga.triggered_by, Some(42));
    assert_ne!(saga.command_id, next.command_id);
}

fn history_event(position: u64, event: OpenedAccount, when: Timestamp) -> HistoryEvent {
    HistoryEvent {
        position,
        event_type: OpenedAccount::event_type(),
        stored: Ok(StoredEventData::new(
            CommandContext::user_initiated().envelope(when),
            event.to_bytes().unwrap(),
        )),
    }
}

#[test]
fn fold_passes_over_repeated_positions() {
    let opened = |balance| OpenedAccount { account_id: s("alice"), initial_balance: balance };
    let history = vec![
        history_event(1, opened(10), at(5)),
        history_event(2, opened(20), at(9)),
        history_event(2, opened(999), at(50)),
        history_event(1, opened(999), at(60)),
        history_event(5, opened(30), at(7)),
    ];
    let mut handler = TransferFunds::new();
    let done = replay(&mut handler, &history).unwrap();
    assert_eq!(done.positions, vec![1, 2, 5]);
    assert_eq!(done.observed, vec![at(5), at(9), at(7)]);
    assert_eq!(done.latest, Some(at(9)));
    assert_eq!(handler.seen, vec![at(5), at(9), at(7)]);
    assert_eq!(handler.known("alice"), Some(30));
}

#[test]
fn fold_of_nothing_observes_nothing() {
    let mut handler = TransferFunds::new();
    let done = replay(&mut handler, &Vec::new()).unwrap();
    assert!(done.positions.is_empty());
    assert_eq!(done.latest, None);
}

#[test]
fn fold_passes_over_event_types_outside_the_set() {
    let mut foreign = history_event(1, OpenedAccount { account_id: s("a"), initial_balance: 1 }, at(5));
    foreign.event_type = s("SomethingElse");
    let mut handler = TransferFunds::new();
    let done = replay(&mut handler, &vec![foreign]).unwrap();
    assert_eq!(done.positions, vec![1]);
    assert!(done.observed.is_empty());
    assert!(handler.seen.is_empty());
}

#[test]
fn fold_stops_at_a_payload_that_cannot_be_read() {
    let good = history_event(1, OpenedAccount { account_id: s("a"), initial_balance: 1 }, at(5));
    let mut bad = history_event(2, OpenedAccount { account_id: s("b"), initial_balance: 1 }, at(6));
    bad.stored = Ok(StoredEventData::new(
        CommandContext::user_initiated().envelope(at(6)),
        b"{\"account_id\": 3}".to_vec(),
    ));
    let after = history_event(3, OpenedAccount { account_id: s("c"), initial_balance: 1 }, at(7));
    let mut handler = TransferFunds::new();
    match replay(&mut handler, &vec![good, bad, after]) {
        Err(ExecuteError::Serialization(e)) => assert!(e.message.contains("account_id")),
        other => panic!("unexpected: {:?}", other.map(|d| d.positions)),
    }
    assert_eq!(handler.seen, vec![at(5)]);
}

#[test]
fn fold_stops_at_stored_data_that_cannot_be_read() {
    let unreadable = HistoryEvent {
        position: 1,
        event_type: s("OpenedAccount"),
        stored: Err(SerializationError::new(s("expected value at line 1 column 1"))),
    };
    let mut handler = TransferFunds::new();
    match replay(&mut handler, &vec![unreadable]) {
        Err(ExecuteError::Serialization(e)) => {
            assert_eq!(e.message, "expected value at line 1 column 1")
        }
        other => panic!("unexpected: {:?}", other.map(|d| d.positions)),
    }
}

#[test]
fn colon_in_a_field_name_is_detected_before_encoding() {
    let mut ids = DomainIdValues::new();
    ids.insert(s("bad:name"), DomainIdValue::some(s("x")));
    let emit = Emit::new().event(EmittedEvent { event_type: s("T"), data: Vec::new(), domain_ids: ids });
    assert!(!well_named(&emit));
    assert!(well_named(&Emit::new()));
}

#[test]
fn hook_that_would_wait_ends_the_blocking_execution() {
    assert!(hook_outcome(Some(Ok(()))).is_ok());
    match hook_outcome(Some(Err(CommandError::rejected(s("not now"))))) {
        Err(ExecuteError::Command(e)) => assert_eq!(e.message, "not now"),
        other => panic!("unexpected: {other:?}"),
    }
    match hook_outcome(None) {
        Err(ExecuteError::HookSuspended) => {}
        other => panic!("unexpected: {other:?}"),
    }
    let report = Error::from_execute_error(ExecuteError::HookSuspended);
    assert_eq!(report.status, ErrorStatus::Internal);
    assert_eq!(report.status_code, 500);
    assert_eq!(report.code, "hook_suspended");
}

fn shape(items: &[QueryItem]) -> Vec<(Vec<String>, Vec<String>)> {
    items.iter().map(|i| (i.tags.clone(), i.types.clone())).collect()
}

#[test]
fn query_is_planned_from_the_input_unless_the_handler_makes_its_own() {
    let planned = planned_query::<TransferInput, Query>(&transfer(30));
    let types = vec![s("OpenedAccount"), s("SentFunds"), s("ReceivedFunds")];
    assert_eq!(
        shape(&planned.query),
        vec![
            (vec![s("account_id:alice")], types.clone()),
            (vec![s("account_id:bob")], types),
        ]
    );
    assert_eq!(planned.bindings.get("account_id"), Some(&vec![s("alice"), s("bob")]));
    assert_eq!(planned.schema.len(), 3);

    let started = begin::<TransferFunds>(&transfer(30)).unwrap();
    assert_eq!(shape(&started.query), shape(&planned.query));
}

struct Audit;

impl Command for Audit {
    type Query = Query;
    type Input = TransferInput;

    fn new() -> Self {
        Audit
    }

    fn query(&self, _input: &TransferInput) -> Vec<QueryItem> {
        vec![QueryItem { tags: vec![s("branch:north")], types: vec![s("OpenedAccount")] }]
    }

    fn apply(&mut self, _event: Query, _meta: EventMeta) {}

    fn handle(self, _input: &TransferInput) -> Result<Emit, CommandError> {
        Ok(Emit::new())
    }
}

#[test]
fn handler_can_make_its_own_query_and_every_input_passes_by_default() {
    // amount 0 does not pass the validation of TransferFunds; Audit has none
    let started = begin::<Audit>(&transfer(0)).unwrap();
    assert_eq!(
        shape(&started.query),
        vec![(vec![s("branch:north")], vec![s("OpenedAccount")])]
    );
}

#[test]
fn event_payloads_read_back_as_written() {
    let opened = OpenedAccount { account_id: s("alice"), initial_balance: 100 };
    assert_eq!(OpenedAccount::from_bytes(&opened.to_bytes().unwrap()).unwrap(), opened);
    let sent = SentFunds { account_id: s("alice"), amount: 30, recipient_id: None };
    assert_eq!(SentFunds::from_bytes(&sent.to_bytes().unwrap()).unwrap(), sent);
    let received = ReceivedFunds { account_id: s("bob"), amount: 30, sender_id: Some(s("alice")) };
    assert_eq!(ReceivedFunds::from_bytes(&received.to_bytes().unwrap()).unwrap(), received);
    match Query::from_event("SentFunds", &sent.to_bytes().unwrap()) {
        Some(Ok(Query::SentFunds(e))) => assert_eq!(e, sent),
        other => panic!("unexpected: {other:?}"),
    }
    assert!(Query::from_event("Unknown", b"{}").is_none());
    assert!(matches!(Query::from_event("SentFunds", b"{}"), Some(Err(_))));
}

#[test]
fn emission_time_is_the_clock_unless_history_is_later() {
    assert_eq!(emission_time(at(200), None), at(200));
    assert_eq!(emission_time(at(200), Some(at(101))), at(200));
    assert_eq!(emission_time(at(200), Some(at(200))), at(200));
    assert_eq!(emission_time(at(200), Some(at(300))), at(300));
    let early = Timestamp { seconds: 200, nanos: 1 };
    let late = Timestamp { seconds: 200, nanos: 2 };
    assert_eq!(emission_time(early, Some(late)), late);
    assert_eq!(emission_time(late, Some(early)), late);
}

#[test]
fn events_are_not_dated_before_the_history_that_the_handler_saw() {
    // the accounts were opened at 100 and 101; the clock reads 50
    let mut store = accounts(100, 50);
    let ctx = CommandContext::user_initiated();
    let result = execute(&mut store, &transfer(30), &ctx, at(50)).unwrap();
    assert_eq!(result.events.len(), 2);
    for e in &result.events {
        assert_eq!(e.stored.timestamp, at(101));
        assert!(e.stored.timestamp.at_or_after(&at(100)));
        assert!(e.stored.timestamp.at_or_after(&at(101)));
        assert!(e.stored.timestamp.at_or_after(&at(50)));
    }
}

#[test]
fn reading_an_event_decides_between_apply_skip_and_failure() {
    let skipped: Result<Option<u8>, ExecuteError> = reading(None);
    assert!(matches!(skipped, Ok(None)));
    let given: Result<Option<u8>, ExecuteError> = reading(Some(Ok(3)));
    assert!(matches!(given, Ok(Some(3))));
    let failed: Result<Option<u8>, ExecuteError> =
        reading(Some(Err(SerializationError::new(s("bad payload")))));
    match failed {
        Err(ExecuteError::Serialization(e)) => assert_eq!(e.message, "bad payload"),
        _ => panic!("the payload cannot be read"),
    }
}

#[test]
fn fold_that_fails_leaves_later_events_alone() {
    let good = history_event(1, OpenedAccount { account_id: s("a"), initial_balance: 1 }, at(5));
    let unreadable = HistoryEvent {
        position: 2,
        event_type: s("OpenedAccount"),
        stored: Err(SerializationError::new(s("truncated"))),
    };
    let after = history_event(3, OpenedAccount { account_id: s("c"), initial_balance: 7 }, at(7));
    let mut handler = TransferFunds::new();
    match replay(&mut handler, &vec![good, unreadable, after]) {
        Err(ExecuteError::Serialization(e)) => assert_eq!(e.message, "truncated"),
        other => panic!("unexpected: {:?}", other.map(|d| d.positions)),
    }
    assert_eq!(handler.seen, vec![at(5)]);
    assert_eq!(handler.known("a"), Some(1));
    assert_eq!(handler.known("c"), None);
}

#[test]
fn fold_passes_over_an_unreadable_event_at_a_repeated_position() {
    // the second event repeats position 1: it is not taken, so that the store
    // holds it unreadably does not matter
    let good = history_event(1, OpenedAccount { account_id: s("a"), initial_balance: 1 }, at(5));
    let repeated = HistoryEvent {
        position: 1,
        event_type: s("OpenedAccount"),
        stored: Err(SerializationError::new(s("truncated"))),
    };
    let mut handler = TransferFunds::new();
    let done = replay(&mut handler, &vec![good, repeated]).unwrap();
    assert_eq!(done.positions, vec![1]);
    assert_eq!(done.observed, vec![at(5)]);
}
