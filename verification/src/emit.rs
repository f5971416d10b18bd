//! The events that a command emits, collected in order and written once.

use vstd::prelude::*;
use vstd::string::*;

use crate::domain_id::DomainIdValues;
use crate::error::SerializationError;
use crate::event::Event;
use crate::text::text_eq;

verus! {

/// A written event, ready to be stored.
#[derive(Debug, Clone)]
pub struct EmittedEvent {
    /// The event type name.
    pub event_type: String,
    /// The written payload.
    pub data: Vec<u8>,
    /// The domain-ID values by which the event is indexed.
    pub domain_ids: DomainIdValues,
}

/// A written event as a mathematical value.
pub struct EmittedEventView {
    /// The event type name.
    pub event_type: Seq<char>,
    /// The written payload.
    pub data: Seq<u8>,
    /// The domain-ID values by which the event is indexed.
    pub domain_ids: Seq<(Seq<char>, Option<Seq<char>>)>,
}

impl View for EmittedEvent {
    type V = EmittedEventView;

    open spec fn view(&self) -> EmittedEventView {
        EmittedEventView {
            event_type: self.event_type@,
            data: self.data@,
            domain_ids: self.domain_ids@,
        }
    }
}

/// Whether one of the written events `emit` has the type name `name`.
pub open spec fn holds_type(emit: Seq<EmittedEventView>, name: Seq<char>) -> bool {
    exists|i: int| 0 <= i < emit.len() && (#[trigger] emit[i]).event_type == name
}

/// Whether `r` is what adding an event gives: the collection `before` with
/// the event after the ones collected, if its payload was written; and else
/// the error of the writing.
pub open spec fn adds(
    before: Seq<EmittedEventView>,
    event_type: Seq<char>,
    data: Result<Vec<u8>, SerializationError>,
    domain_ids: Seq<(Seq<char>, Option<Seq<char>>)>,
    r: Result<Emit, SerializationError>,
) -> bool {
    match (data, r) {
        (Ok(bytes), Ok(e)) => e@ == before.push(
            EmittedEventView { event_type, data: bytes@, domain_ids },
        ),
        (Err(err), Err(out)) => out == err,
        _ => false,
    }
}

/// The events that a command emits, in the order in which they were added.
#[derive(Debug, Clone)]
pub struct Emit {
    /// The events collected so far.
    pub events: Vec<EmittedEvent>,
}

impl View for Emit {
    type V = Seq<EmittedEventView>;

    open spec fn view(&self) -> Seq<EmittedEventView> {
        Seq::new(self.events@.len(), |i: int| self.events@[i]@)
    }
}

impl Emit {
    /// An empty collection.
    pub fn new() -> (r: Self)
        ensures
            r@ == Seq::<EmittedEventView>::empty(),
    {
        let r = Emit { events: Vec::new() };
        assert(r@ =~= Seq::<EmittedEventView>::empty());
        r
    }

    /// Adds a written event after the ones collected.
    pub fn event(self, emitted: EmittedEvent) -> (r: Self)
        ensures
            r@ == self@.push(emitted@),
    {
        let mut events = self.events;
        events.push(emitted);
        let r = Emit { events };
        assert(r@ =~= self@.push(emitted@));
        r
    }

    /// Adds the event with the given type name and domain-ID values whose
    /// payload was written as `data`, or gives the error if writing failed.
    pub fn with_written(
        self,
        event_type: String,
        data: Result<Vec<u8>, SerializationError>,
        domain_ids: DomainIdValues,
    ) -> (r: Result<Self, SerializationError>)
        ensures
            adds(self@, event_type@, data, domain_ids@, r),
    {
        match data {
            Ok(bytes) => Ok(self.event(EmittedEvent { event_type, data: bytes, domain_ids })),
            Err(err) => Err(err),
        }
    }

    /// Adds an event, or gives the error if its payload cannot be written:
    /// the event is added under the type name that its type gives, with the
    /// payload as the event writes it and the domain-ID values that it gives.
    pub fn try_event<E: Event>(self, event: E) -> (r: Result<Self, SerializationError>)
        ensures
            exists|ids: DomainIdValues, data: Result<Vec<u8>, SerializationError>, name: String|
                #![trigger
                    call_ensures(E::domain_ids, (&event,), ids),
                    call_ensures(E::to_bytes, (&event,), data),
                    call_ensures(E::event_type, (), name),
                ]
                call_ensures(E::domain_ids, (&event,), ids) && call_ensures(
                    E::to_bytes,
                    (&event,),
                    data,
                ) && call_ensures(E::event_type, (), name) && adds(self@, name@, data, ids@, r),
    {
        let domain_ids = event.domain_ids();
        let data = event.to_bytes();
        let name = E::event_type();
        self.with_written(name, data, domain_ids)
    }

    /// Whether no events will be emitted.
    pub fn is_empty(&self) -> (r: bool)
        ensures
            r == (self@.len() == 0),
    {
        self.events.len() == 0
    }

    /// The number of events to be emitted.
    pub fn len(&self) -> (n: usize)
        ensures
            n == self@.len(),
    {
        self.events.len()
    }

    /// Whether an event with the given type name has been added.
    pub fn contains_type(&self, event_type: &str) -> (r: bool)
        ensures
            r == holds_type(self@, event_type@),
    {
        let mut i: usize = 0;
        while i < self.events.len()
            invariant
                i <= self.events@.len(),
                forall|j: int| 0 <= j < i ==> (#[trigger] self@[j]).event_type != event_type@,
            decreases self.events@.len() - i,
        {
            if text_eq(self.events[i].event_type.as_str(), event_type) {
                assert(self@[i as int].event_type == event_type@);
                return true;
            }
            i = i + 1;
        }
        false
    }

    /// Whether an event of type `E` has been added: whether the collection
    /// holds an event under the one type name that `E` gives.
    pub fn contains_event_type<E: Event>(&self) -> (r: bool)
        ensures
            exists|name: String| #[trigger]
                call_ensures(E::event_type, (), name) && r == holds_type(self@, name@),
    {
        let name = E::event_type();
        self.contains_type(name.as_str())
    }

    /// The collected events.
    pub fn events(&self) -> (r: &Vec<EmittedEvent>)
        ensures
            r@ == self.events@,
    {
        &self.events
    }

    /// Consumes the collection and gives the events.
    pub fn into_events(self) -> (r: Vec<EmittedEvent>)
        ensures
            r@ == self.events@,
    {
        self.events
    }
}

} // verus!
