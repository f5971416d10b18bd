//! The schema of events and event sets, checked when it is put together.

use vstd::prelude::*;
use vstd::string::*;
use vstd::utf8::is_ascii_chars;

use crate::product::clone_texts;
use crate::query::{EventDomainIds, QueryItem, QueryItemView};
use crate::signature::texts_contain;
use crate::text::{contains_separator, has_separator, text_eq};

verus! {

/// Why a schema is refused.
#[derive(Clone, Debug)]
pub enum SchemaError {
    /// The event type name is empty.
    EmptyEventType,
    /// The event type name holds a character outside ASCII.
    NonAsciiEventType,
    /// A domain-ID field name holds the tag separator.
    SeparatorInField(String),
    /// A domain-ID field name is declared twice.
    DuplicateField(String),
    /// A scope names a field that the event type does not declare.
    UnknownScopeField(String),
}

/// Whether the field at `i` is well declared: without the tag separator, and
/// different from the fields before it.
pub open spec fn field_ok(fields: Seq<Seq<char>>, i: int) -> bool {
    &&& !has_separator(fields[i])
    &&& forall|j: int| 0 <= j < i ==> fields[j] != fields[i]
}

/// Whether the first `n` fields are well declared.
pub open spec fn fields_ok_upto(fields: Seq<Seq<char>>, n: int) -> bool {
    forall|i: int| 0 <= i < n ==> field_ok(fields, i)
}

/// Whether an event type is well declared: a non-empty ASCII name, and
/// domain-ID fields without duplicates and without the tag separator.
pub open spec fn valid_event(event_type: Seq<char>, fields: Seq<Seq<char>>) -> bool {
    &&& valid_event_type(event_type)
    &&& fields_ok_upto(fields, fields.len() as int)
}

/// Whether an event type name is well formed: non-empty and ASCII.
pub open spec fn valid_event_type(event_type: Seq<char>) -> bool {
    event_type.len() > 0 && is_ascii_chars(event_type)
}

/// Whether `name` is the first field that is not well declared, and holds the
/// tag separator.
pub open spec fn first_fault_is_separator(fields: Seq<Seq<char>>, name: Seq<char>) -> bool {
    exists|i: int|
        0 <= i < fields.len() && fields_ok_upto(fields, i) && has_separator(#[trigger] fields[i])
            && name == fields[i]
}

/// Whether `name` is the first field that is not well declared, and repeats
/// an earlier field.
pub open spec fn first_fault_is_duplicate(fields: Seq<Seq<char>>, name: Seq<char>) -> bool {
    exists|i: int|
        0 <= i < fields.len() && fields_ok_upto(fields, i) && !has_separator(#[trigger] fields[i])
            && !field_ok(fields, i) && name == fields[i]
}

/// What the check of an event type answers for a name and fields: the first
/// fault, looking at the name and then at the fields in order.
pub open spec fn event_check(
    event_type: Seq<char>,
    fields: Seq<Seq<char>>,
    r: Result<(), SchemaError>,
) -> bool {
    match r {
        Ok(_) => valid_event(event_type, fields),
        Err(SchemaError::EmptyEventType) => event_type.len() == 0,
        Err(SchemaError::NonAsciiEventType) => event_type.len() > 0 && !is_ascii_chars(event_type),
        Err(SchemaError::SeparatorInField(name)) => valid_event_type(event_type)
            && first_fault_is_separator(fields, name@),
        Err(SchemaError::DuplicateField(name)) => valid_event_type(event_type)
            && first_fault_is_duplicate(fields, name@),
        Err(SchemaError::UnknownScopeField(_)) => false,
    }
}

/// Checks the declaration of an event type.
pub fn check_event(event_type: &str, fields: &Vec<String>) -> (r: Result<(), SchemaError>)
    ensures
        event_check(event_type@, fields.deep_view(), r),
{
    let n: usize = event_type.unicode_len();
    if n == 0 {
        return Err(SchemaError::EmptyEventType);
    }
    if !event_type.is_ascii() {
        return Err(SchemaError::NonAsciiEventType);
    }
    let ghost names = fields.deep_view();
    let mut i: usize = 0;
    while i < fields.len()
        invariant
            i <= fields.len(),
            names == fields.deep_view(),
            valid_event_type(event_type@),
            fields_ok_upto(names, i as int),
        decreases fields.len() - i,
    {
        if contains_separator(fields[i].as_str()) {
            let name = fields[i].clone();
            assert(has_separator(names[i as int]) && name@ == names[i as int]);
            assert(first_fault_is_separator(names, name@));
            return Err(SchemaError::SeparatorInField(name));
        }
        let mut j: usize = 0;
        while j < i
            invariant
                j <= i,
                i < fields.len(),
                names == fields.deep_view(),
                valid_event_type(event_type@),
                fields_ok_upto(names, i as int),
                !has_separator(names[i as int]),
                forall|k: int| 0 <= k < j ==> names[k] != names[i as int],
            decreases i - j,
        {
            if text_eq(fields[j].as_str(), fields[i].as_str()) {
                let name = fields[i].clone();
                assert(names[j as int] == names[i as int]);
                assert(!field_ok(names, i as int));
                assert(!has_separator(names[i as int]) && name@ == names[i as int]);
                assert(first_fault_is_duplicate(names, name@));
                return Err(SchemaError::DuplicateField(name));
            }
            j = j + 1;
        }
        assert(field_ok(names, i as int));
        i = i + 1;
    }
    Ok(())
}

/// Whether every field of `scope` is declared among `declared`.
pub open spec fn scope_within(scope: Seq<Seq<char>>, declared: Seq<Seq<char>>) -> bool {
    forall|i: int| 0 <= i < scope.len() ==> declared.contains(#[trigger] scope[i])
}

/// Whether `name` is the first field of `scope` that is not declared among
/// `declared`.
pub open spec fn first_unknown(
    scope: Seq<Seq<char>>,
    declared: Seq<Seq<char>>,
    name: Seq<char>,
) -> bool {
    exists|i: int|
        0 <= i < scope.len() && scope_within(scope.take(i), declared) && !declared.contains(
            #[trigger] scope[i],
        ) && name == scope[i]
}

/// The fields by which an event type is queried within an event set: the
/// scope that the set gives it, which must lie within the fields that the
/// type declares, or all declared fields if the set gives none.
pub fn effective_fields(declared: &Vec<String>, scope: Option<&Vec<String>>) -> (r: Result<
    Vec<String>,
    SchemaError,
>)
    ensures
        scope.is_none() ==> r is Ok && r->Ok_0.deep_view() == declared.deep_view(),
        scope.is_some() ==> (r is Ok <==> scope_within(
            scope.unwrap().deep_view(),
            declared.deep_view(),
        )),
        scope.is_some() && r is Ok ==> r->Ok_0.deep_view() == scope.unwrap().deep_view(),
        scope.is_some() && r is Err ==> r->Err_0 is UnknownScopeField && first_unknown(
            scope.unwrap().deep_view(),
            declared.deep_view(),
            r->Err_0->UnknownScopeField_0@,
        ),
{
    match scope {
        None => Ok(clone_texts(declared)),
        Some(s) => {
            let mut i: usize = 0;
            while i < s.len()
                invariant
                    i <= s.len(),
                    scope == Some(s),
                    scope_within(s.deep_view().take(i as int), declared.deep_view()),
                decreases s.len() - i,
            {
                if !texts_contain(declared, s[i].as_str()) {
                    let name = s[i].clone();
                    assert(!declared.deep_view().contains(s.deep_view()[i as int]));
                    assert(first_unknown(s.deep_view(), declared.deep_view(), name@));
                    return Err(SchemaError::UnknownScopeField(name));
                }
                assert(scope_within(s.deep_view().take(i + 1), declared.deep_view())) by {
                    assert forall|k: int| 0 <= k < i + 1 implies declared.deep_view().contains(
                        #[trigger] s.deep_view().take(i + 1)[k],
                    ) by {
                        if k < i {
                            assert(s.deep_view().take(i as int)[k] == s.deep_view()[k]);
                        }
                    }
                }
                i = i + 1;
            }
            assert(s.deep_view().take(i as int) =~= s.deep_view());
            Ok(clone_texts(s))
        },
    }
}

/// One entry of an event set's schema: an event type with the fields by which
/// it is queried, after the checks of the type's declaration and of the
/// scope.
pub fn schema_entry(event_type: &str, declared: &Vec<String>, scope: Option<&Vec<String>>) -> (r:
    Result<EventDomainIds, SchemaError>)
    ensures
        match r {
            Ok(entry) => {
                &&& valid_event(event_type@, declared.deep_view())
                &&& entry@.0 == event_type@
                &&& match scope {
                    None => entry@.1 == declared.deep_view(),
                    Some(s) => entry@.1 == s.deep_view() && scope_within(
                        s.deep_view(),
                        declared.deep_view(),
                    ),
                }
            },
            Err(SchemaError::UnknownScopeField(name)) => valid_event(
                event_type@,
                declared.deep_view(),
            ) && scope.is_some() && first_unknown(
                scope.unwrap().deep_view(),
                declared.deep_view(),
                name@,
            ),
            Err(e) => event_check(event_type@, declared.deep_view(), Err(e)),
        },
{
    match check_event(event_type, declared) {
        Ok(_) => {},
        Err(e) => {
            return Err(e);
        },
    }
    match effective_fields(declared, scope) {
        Ok(fields) => Ok(EventDomainIds { event_type: String::from_str(event_type), fields }),
        Err(e) => Err(e),
    }
}

/// The query of a projection that names none: the single item that matches
/// every event type of the handler's event set.
pub fn all_types_query(event_types: Vec<String>) -> (items: Vec<QueryItem>)
    ensures
        items@.len() == 1,
        items@[0]@ == (QueryItemView {
            tags: Seq::empty(),
            types: event_types.deep_view(),
        }),
{
    let mut items: Vec<QueryItem> = Vec::new();
    let tags: Vec<String> = Vec::new();
    assert(tags.deep_view() =~= Seq::<Seq<char>>::empty());
    items.push(QueryItem { tags, types: event_types });
    items
}

} // verus!
