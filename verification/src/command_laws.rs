//! What holds of every command execution.

use vstd::prelude::*;

use crate::command::{emission_time_spec, encodes, is_latest, WireEvent};
use crate::domain_id::{has_key, keys_unique, values_of};
use crate::emit::EmittedEventView;
use crate::envelope::{CommandContext, Timestamp};
use crate::plan_laws::lemma_plan_sound;
use crate::query::{plan, query_matches};

verus! {

/// Envelope integrity: an event encoded for the execution `context`, emitted
/// when the clock read `clock` after a fold that showed the handler the times
/// `observed`, names that execution as its cause, lies within its
/// correlation, carries what triggered it, and is dated at the time of
/// emission: not before the clock's reading, and not before any of the times
/// that the handler was shown.
pub proof fn lemma_envelope_integrity(
    wire: WireEvent,
    emitted: EmittedEventView,
    context: CommandContext,
    clock: Timestamp,
    latest: Option<Timestamp>,
    observed: Seq<Timestamp>,
)
    requires
        encodes(wire, emitted, context.envelope_spec(emission_time_spec(clock, latest))),
        is_latest(latest, observed),
    ensures
        wire.stored.causation_id == context.command_id,
        wire.stored.correlation_id == context.correlation_id,
        wire.stored.triggered_by == context.triggered_by,
        wire.stored.timestamp == emission_time_spec(clock, latest),
        wire.stored.timestamp.is_at_or_after(clock),
        forall|k: int|
            0 <= k < observed.len() ==> wire.stored.timestamp.is_at_or_after(
                #[trigger] observed[k],
            ),
{
    assert forall|k: int| 0 <= k < observed.len() implies wire.stored.timestamp.is_at_or_after(
        #[trigger] observed[k],
    ) by {
        assert(latest.unwrap().is_at_or_after(observed[k]));
    }
}

/// An appended event lies within the boundary that its command read: the
/// plan for the command's bindings matches every encoded event whose type is
/// of the command's event set and which carries, for each bound domain-ID
/// field of its type, one of the values bound to that field.
pub proof fn lemma_appended_event_matches_plan(
    wire: WireEvent,
    emitted: EmittedEventView,
    context: CommandContext,
    now: Timestamp,
    schema: Seq<(Seq<char>, Seq<Seq<char>>)>,
    b: Seq<(Seq<char>, Seq<Seq<char>>)>,
    i: int,
)
    requires
        encodes(wire, emitted, context.envelope_spec(now)),
        keys_unique(b),
        0 <= i < schema.len(),
        schema[i].0 == emitted.event_type,
        forall|f: Seq<char>|
            schema[i].1.contains(f) && #[trigger] has_key(b, f) ==> exists|v: Seq<char>|
                emitted.domain_ids.contains((f, Some(v))) && #[trigger] values_of(b, f).contains(v),
    ensures
        query_matches(plan(schema, b), wire.event_type@, wire.tags.deep_view()),
{
    lemma_plan_sound(schema, b, i, emitted.domain_ids);
}

} // verus!
