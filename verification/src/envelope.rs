//! The metadata that wraps an event at rest, and the context of the command
//! that causes it.
//!
//! Identifiers are UUIDs, held as their 128-bit values. Times are UTC, held
//! as seconds since the Unix epoch and nanoseconds within the second.

use vstd::prelude::*;
use vstd::string::*;

use crate::text::digit_char;

verus! {

/// A point in time, UTC.
#[derive(Clone, Copy, Debug, PartialEq, Eq, Structural)]
pub struct Timestamp {
    /// Whole seconds since the Unix epoch.
    pub seconds: i64,
    /// Nanoseconds within the second.
    pub nanos: u32,
}

impl Timestamp {
    /// Whether this time is `other` or later.
    pub open spec fn is_at_or_after(self, other: Timestamp) -> bool {
        self.seconds > other.seconds || (self.seconds == other.seconds && self.nanos
            >= other.nanos)
    }

    /// Decides whether this time is `other` or later.
    pub fn at_or_after(&self, other: &Timestamp) -> (r: bool)
        ensures
            r == self.is_at_or_after(*other),
    {
        self.seconds > other.seconds || (self.seconds == other.seconds && self.nanos
            >= other.nanos)
    }
}

/// The bits of a UUID that give its version.
pub const UUID_VERSION_BITS: u128 = 0x0000_0000_0000_F000_0000_0000_0000_0000;

/// The version bits of a random (version 4) UUID.
pub const UUID_VERSION_4: u128 = 0x0000_0000_0000_4000_0000_0000_0000_0000;

/// The bits of a UUID that give its variant.
pub const UUID_VARIANT_BITS: u128 = 0x0000_0000_0000_0000_C000_0000_0000_0000;

/// The variant bits of an RFC 9562 UUID.
pub const UUID_VARIANT_RFC: u128 = 0x0000_0000_0000_0000_8000_0000_0000_0000;

/// Whether `id` is the value of a random UUID: version 4, RFC variant.
pub open spec fn is_random_uuid(id: u128) -> bool {
    id & UUID_VERSION_BITS == UUID_VERSION_4 && id & UUID_VARIANT_BITS == UUID_VARIANT_RFC
}

/// The character of a hexadecimal digit, in lower case.
pub open spec fn hex_digit(d: nat) -> char {
    if d < 10 {
        digit_char(d)
    } else if d == 10 {
        'a'
    } else if d == 11 {
        'b'
    } else if d == 12 {
        'c'
    } else if d == 13 {
        'd'
    } else if d == 14 {
        'e'
    } else {
        'f'
    }
}

/// The last `width` digits of a number in hexadecimal notation, in lower
/// case, with leading zeros where the number is shorter.
pub open spec fn hex_text(n: nat, width: nat) -> Seq<char>
    decreases width,
{
    if width == 0 {
        Seq::empty()
    } else {
        hex_text(n / 16, (width - 1) as nat).push(hex_digit(n % 16))
    }
}

/// A UUID in its hyphenated lower-case form: the 32 hexadecimal digits of its
/// value, most significant first, in groups of 8, 4, 4, 4 and 12 with a
/// hyphen between the groups.
pub open spec fn uuid_hyphenated(id: u128) -> Seq<char> {
    hex_text(id as nat / 0x1_0000_0000_0000_0000_0000_0000, 8) + seq!['-'] + hex_text(
        id as nat / 0x1_0000_0000_0000_0000_0000,
        4,
    ) + seq!['-'] + hex_text(id as nat / 0x1_0000_0000_0000_0000, 4) + seq!['-'] + hex_text(
        id as nat / 0x1_0000_0000_0000,
        4,
    ) + seq!['-'] + hex_text(id as nat, 12)
}

/// A fresh random UUID, from `uuid::Uuid::new_v4`. Which one is not known;
/// it carries the marks of a version 4 UUID, which `new_v4` sets.
#[verifier::external_body]
pub(crate) fn fresh_uuid() -> (id: u128)
    ensures
        is_random_uuid(id),
{
    uuid::Uuid::new_v4().as_u128()
}

/// The text of a UUID, by the `Display` of `uuid::Uuid`, which writes the
/// value's 32 hexadecimal digits in lower case, most significant first, in
/// groups of 8, 4, 4, 4 and 12 with hyphens between.
#[verifier::external_body]
pub(crate) fn uuid_text(id: u128) -> (text: String)
    ensures
        text@ == uuid_hyphenated(id),
{
    uuid::Uuid::from_u128(id).to_string()
}

/// The metadata of an event at rest.
#[derive(Clone, Copy, Debug, PartialEq, Eq, Structural)]
pub struct EventEnvelope {
    /// When the event was emitted.
    pub timestamp: Timestamp,
    /// The identifier shared by everything that one request set off.
    pub correlation_id: u128,
    /// The identifier of the command execution that emitted the event.
    pub causation_id: u128,
    /// The stored event that caused the command, if one did.
    pub triggered_by: Option<u128>,
}

/// What the store holds for one event: the envelope and the payload.
#[derive(Clone, Debug)]
pub struct StoredEventData {
    /// When the event was emitted.
    pub timestamp: Timestamp,
    /// The identifier shared by everything that one request set off.
    pub correlation_id: u128,
    /// The identifier of the command execution that emitted the event.
    pub causation_id: u128,
    /// The stored event that caused the command, if one did.
    pub triggered_by: Option<u128>,
    /// The written payload of the event.
    pub data: Vec<u8>,
}

impl StoredEventData {
    /// The envelope of the stored event.
    pub open spec fn envelope_spec(self) -> EventEnvelope {
        EventEnvelope {
            timestamp: self.timestamp,
            correlation_id: self.correlation_id,
            causation_id: self.causation_id,
            triggered_by: self.triggered_by,
        }
    }

    /// Wraps a payload in an envelope.
    pub fn new(envelope: EventEnvelope, data: Vec<u8>) -> (r: Self)
        ensures
            r.envelope_spec() == envelope,
            r.data == data,
    {
        StoredEventData {
            timestamp: envelope.timestamp,
            correlation_id: envelope.correlation_id,
            causation_id: envelope.causation_id,
            triggered_by: envelope.triggered_by,
            data,
        }
    }

    /// The envelope of the stored event.
    pub fn envelope(&self) -> (r: EventEnvelope)
        ensures
            r == self.envelope_spec(),
    {
        EventEnvelope {
            timestamp: self.timestamp,
            correlation_id: self.correlation_id,
            causation_id: self.causation_id,
            triggered_by: self.triggered_by,
        }
    }
}

/// A stored event as a projection sees it: where it stands in the store, its
/// envelope, and its payload read as `T`.
#[derive(Clone, Debug)]
pub struct StoredEvent<T> {
    /// The event's own identifier.
    pub id: u128,
    /// The event's position in the store.
    pub position: u64,
    /// The event type name.
    pub event_type: String,
    /// The tags under which the event is indexed.
    pub tags: Vec<String>,
    /// When the event was emitted.
    pub timestamp: Timestamp,
    /// The identifier shared by everything that one request set off.
    pub correlation_id: u128,
    /// The identifier of the command execution that emitted the event.
    pub causation_id: u128,
    /// The stored event that caused the command, if one did.
    pub triggered_by: Option<u128>,
    /// The payload.
    pub data: T,
}

/// What a command handler learns of a historical event besides its payload.
#[derive(Clone, Copy, Debug, PartialEq, Eq, Structural)]
pub struct EventMeta {
    /// When the event was emitted.
    pub timestamp: Timestamp,
}

/// The identity of one command execution.
#[derive(Clone, Copy, Debug, PartialEq, Eq, Structural)]
pub struct CommandContext {
    /// The identifier of this execution.
    pub command_id: u128,
    /// The identifier shared by everything that the originating request set
    /// off.
    pub correlation_id: u128,
    /// The stored event that caused the command, if one did.
    pub triggered_by: Option<u128>,
}

impl CommandContext {
    /// The context of a command that a user set off: a fresh identifier,
    /// which is also the correlation identifier.
    pub fn user_initiated() -> (r: Self)
        ensures
            r.correlation_id == r.command_id,
            r.triggered_by.is_none(),
            is_random_uuid(r.command_id),
    {
        let id = fresh_uuid();
        CommandContext { command_id: id, correlation_id: id, triggered_by: None }
    }

    /// The context of a command that continues the given correlation, under a
    /// fresh identifier of its own.
    pub fn with_correlation(correlation_id: u128) -> (r: Self)
        ensures
            r.correlation_id == correlation_id,
            r.triggered_by.is_none(),
            is_random_uuid(r.command_id),
    {
        CommandContext { command_id: fresh_uuid(), correlation_id, triggered_by: None }
    }

    /// The context of a command that the stored event `triggered_by` caused,
    /// within the given correlation, under a fresh identifier of its own.
    pub fn triggered(correlation_id: u128, triggered_by: u128) -> (r: Self)
        ensures
            r.correlation_id == correlation_id,
            r.triggered_by == Some(triggered_by),
            is_random_uuid(r.command_id),
    {
        CommandContext {
            command_id: fresh_uuid(),
            correlation_id,
            triggered_by: Some(triggered_by),
        }
    }

    /// The envelope of the events that this execution emits at `now`.
    pub open spec fn envelope_spec(self, now: Timestamp) -> EventEnvelope {
        EventEnvelope {
            timestamp: now,
            correlation_id: self.correlation_id,
            causation_id: self.command_id,
            triggered_by: self.triggered_by,
        }
    }

    /// The envelope of the events that this execution emits at `now`: caused
    /// by this execution, within its correlation.
    pub fn envelope(&self, now: Timestamp) -> (r: EventEnvelope)
        ensures
            r == self.envelope_spec(now),
    {
        EventEnvelope {
            timestamp: now,
            correlation_id: self.correlation_id,
            causation_id: self.command_id,
            triggered_by: self.triggered_by,
        }
    }
}

} // verus!
