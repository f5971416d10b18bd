//! Events and the sets of event types that commands and projections read.

use vstd::prelude::*;
use vstd::string::*;

use crate::domain_id::DomainIdValues;
use crate::error::SerializationError;
use crate::query::EventDomainIds;

verus! {

/// An event type.
///
/// Each event knows its type name, which of its fields are domain IDs, and
/// how its payload is written and read. Domain IDs name the entities whose
/// consistency the event takes part in; fields that only refer to other
/// entities are payload.
pub trait Event: Sized {
    /// The event type name as it appears in the event store.
    fn event_type() -> String;

    /// The domain-ID fields declared on the type.
    fn domain_id_fields() -> Vec<String>;

    /// The domain-ID field names and their values for this instance.
    fn domain_ids(&self) -> DomainIdValues;

    /// Writes the payload of this instance.
    fn to_bytes(&self) -> Result<Vec<u8>, SerializationError>;

    /// Reads an instance from its payload.
    fn from_bytes(data: &[u8]) -> Result<Self, SerializationError>;
}

/// A set of event types that a command or a projection reads: a value of the
/// set is an event of one of its types.
pub trait EventSet: Sized {
    /// The event type names of the set.
    fn event_types() -> Vec<String>;

    /// For each event type of the set, the domain-ID fields by which it is
    /// queried.
    fn event_domain_ids() -> Vec<EventDomainIds>;

    /// Reads an event of the set from its type name and payload: nothing if
    /// the type is not of the set, an error if it is and the payload cannot
    /// be read.
    fn from_event(event_type: &str, data: &[u8]) -> Option<Result<Self, SerializationError>>;
}

/// Access to an event of a set as an event of one type, by reference.
pub trait AsEvent<E> {
    /// The event as an `E`, if it is one.
    fn as_event(&self) -> Option<&E>;
}

/// Access to an event of a set as an event of one type, by value.
pub trait IntoEvent<E> {
    /// The event as an `E`, if it is one.
    fn into_event(self) -> Option<E>;
}

} // verus!
