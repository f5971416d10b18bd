//! Domain IDs: the fields of an event that name the entities whose
//! consistency it takes part in.

use vstd::prelude::*;
use vstd::string::*;

use crate::envelope::{uuid_hyphenated, uuid_text};
use crate::text::{contains_separator, has_separator, make_tag, tag_text, text_eq};

verus! {

/// A domain-ID value of one event instance, which may be absent.
#[derive(Debug, Clone)]
pub enum DomainIdValue {
    /// A present value.
    Value(String),
    /// An absent optional value.
    Absent,
}

impl View for DomainIdValue {
    type V = Option<Seq<char>>;

    open spec fn view(&self) -> Option<Seq<char>> {
        match self {
            DomainIdValue::Value(v) => Some(v@),
            DomainIdValue::Absent => None,
        }
    }
}

impl DomainIdValue {
    /// A present value.
    pub fn some(value: String) -> (r: Self)
        ensures
            r@ == Some(value@),
    {
        DomainIdValue::Value(value)
    }

    /// The absent value.
    pub fn none() -> (r: Self)
        ensures
            r@ == None::<Seq<char>>,
    {
        DomainIdValue::Absent
    }

    /// The value as text, if present.
    pub fn as_option(&self) -> (r: Option<&str>)
        ensures
            match r {
                Some(s) => self@ == Some(s@),
                None => self@ == None::<Seq<char>>,
            },
    {
        match self {
            DomainIdValue::Value(v) => Some(v.as_str()),
            DomainIdValue::Absent => None,
        }
    }

    /// The present value that is the text of a UUID.
    pub fn from_uuid(id: u128) -> (r: Self)
        ensures
            r@ == Some(uuid_hyphenated(id)),
    {
        DomainIdValue::Value(uuid_text(id))
    }

    /// The present value with the given text.
    pub fn from_str(value: &str) -> (r: Self)
        ensures
            r@ == Some(value@),
    {
        DomainIdValue::Value(String::from_str(value))
    }

    /// Converts an optional text: absence becomes the absent value.
    pub fn from_option(value: Option<String>) -> (r: Self)
        ensures
            r@ == match value {
                Some(v) => Some(v@),
                None => None,
            },
    {
        match value {
            Some(v) => DomainIdValue::Value(v),
            None => DomainIdValue::Absent,
        }
    }
}

impl From<String> for DomainIdValue {
    /// A text is a present value.
    fn from(value: String) -> (r: Self) {
        DomainIdValue::Value(value)
    }
}

impl vstd::std_specs::convert::FromSpecImpl<String> for DomainIdValue {
    open spec fn obeys_from_spec() -> bool {
        true
    }

    open spec fn from_spec(value: String) -> Self {
        DomainIdValue::Value(value)
    }
}

impl From<Option<String>> for DomainIdValue {
    /// An optional text is a present value, or the absent one.
    fn from(value: Option<String>) -> (r: Self) {
        match value {
            Some(v) => DomainIdValue::Value(v),
            None => DomainIdValue::Absent,
        }
    }
}

impl vstd::std_specs::convert::FromSpecImpl<Option<String>> for DomainIdValue {
    open spec fn obeys_from_spec() -> bool {
        true
    }

    open spec fn from_spec(value: Option<String>) -> Self {
        match value {
            Some(v) => DomainIdValue::Value(v),
            None => DomainIdValue::Absent,
        }
    }
}

/// The candidate values bound to one domain-ID field name.
#[derive(Debug, Clone)]
pub struct Binding {
    /// The domain-ID field name.
    pub field: String,
    /// The candidate values, in insertion order.
    pub values: Vec<String>,
}

impl View for Binding {
    type V = (Seq<char>, Seq<Seq<char>>);

    open spec fn view(&self) -> (Seq<char>, Seq<Seq<char>>) {
        (self.field@, self.values.deep_view())
    }
}

/// Whether some binding carries the field name `k`.
pub open spec fn has_key(b: Seq<(Seq<char>, Seq<Seq<char>>)>, k: Seq<char>) -> bool {
    exists|i: int| 0 <= i < b.len() && (#[trigger] b[i]).0 == k
}

/// Whether `i` is the first binding that carries the field name `k`.
pub open spec fn is_first_key(b: Seq<(Seq<char>, Seq<Seq<char>>)>, k: Seq<char>, i: int) -> bool {
    &&& 0 <= i < b.len()
    &&& b[i].0 == k
    &&& forall|j: int| 0 <= j < i ==> (#[trigger] b[j]).0 != k
}

/// The values bound to the field name `k`: those of the first binding that
/// carries it, and none if there is no such binding.
pub open spec fn values_of(b: Seq<(Seq<char>, Seq<Seq<char>>)>, k: Seq<char>) -> Seq<Seq<char>> {
    if has_key(b, k) {
        b[choose|i: int| is_first_key(b, k, i)].1
    } else {
        Seq::empty()
    }
}

/// No field name is carried by two bindings.
pub open spec fn keys_unique(b: Seq<(Seq<char>, Seq<Seq<char>>)>) -> bool {
    forall|i: int, j: int|
        0 <= i < j < b.len() ==> (#[trigger] b[i]).0 != (#[trigger] b[j]).0
}

/// The first binding with a given field name is determined.
pub proof fn lemma_first_key_unique(
    b: Seq<(Seq<char>, Seq<Seq<char>>)>,
    k: Seq<char>,
    i: int,
    j: int,
)
    requires
        is_first_key(b, k, i),
        is_first_key(b, k, j),
    ensures
        i == j,
{
    if i < j {
        assert(b[i].0 != k);
    } else if j < i {
        assert(b[j].0 != k);
    }
}

/// The values bound to `k` are those of its first binding.
pub proof fn lemma_values_of_first(b: Seq<(Seq<char>, Seq<Seq<char>>)>, k: Seq<char>, i: int)
    requires
        is_first_key(b, k, i),
    ensures
        has_key(b, k),
        values_of(b, k) == b[i].1,
{
    assert(b[i].0 == k);
    let c = choose|c: int| is_first_key(b, k, c);
    lemma_first_key_unique(b, k, i, c);
}

/// Whether `after` is `before` with `value` bound to `field` as well: after
/// the values of the first binding for that name, or in a new binding after
/// the existing ones.
pub open spec fn binds(
    before: Seq<(Seq<char>, Seq<Seq<char>>)>,
    field: Seq<char>,
    value: Seq<char>,
    after: Seq<(Seq<char>, Seq<Seq<char>>)>,
) -> bool {
    if has_key(before, field) {
        exists|i: int|
            is_first_key(before, field, i) && after == before.update(
                i,
                (field, before[i].1.push(value)),
            )
    } else {
        after == before.push((field, seq![value]))
    }
}

/// Domain-ID bindings of a command input: for each domain-ID field name the
/// candidate values to query for.
///
/// Field names are unique; the values of several input fields bound to one
/// name follow each other in insertion order.
#[derive(Debug, Clone)]
pub struct DomainIdBindings {
    /// The bindings, in insertion order of their field names.
    pub entries: Vec<Binding>,
}

impl View for DomainIdBindings {
    type V = Seq<(Seq<char>, Seq<Seq<char>>)>;

    open spec fn view(&self) -> Seq<(Seq<char>, Seq<Seq<char>>)> {
        Seq::new(self.entries@.len(), |i: int| self.entries@[i]@)
    }
}

impl DomainIdBindings {
    /// Field names are unique.
    pub open spec fn wf(&self) -> bool {
        keys_unique(self@)
    }

    /// No bindings.
    pub fn new() -> (r: Self)
        ensures
            r@ == Seq::<(Seq<char>, Seq<Seq<char>>)>::empty(),
            r.wf(),
    {
        let r = DomainIdBindings { entries: Vec::new() };
        assert(r@ =~= Seq::<(Seq<char>, Seq<Seq<char>>)>::empty());
        r
    }

    /// The number of bound field names.
    pub fn len(&self) -> (n: usize)
        ensures
            n == self@.len(),
    {
        self.entries.len()
    }

    /// Whether nothing is bound.
    pub fn is_empty(&self) -> (r: bool)
        ensures
            r == (self@.len() == 0),
    {
        self.entries.len() == 0
    }

    /// The position of the first binding for `field`, if there is one.
    pub fn position(&self, field: &str) -> (r: Option<usize>)
        ensures
            match r {
                Some(i) => is_first_key(self@, field@, i as int),
                None => !has_key(self@, field@),
            },
    {
        let mut i: usize = 0;
        while i < self.entries.len()
            invariant
                i <= self.entries@.len(),
                forall|j: int| 0 <= j < i ==> (#[trigger] self@[j]).0 != field@,
            decreases self.entries@.len() - i,
        {
            if text_eq(self.entries[i].field.as_str(), field) {
                assert(self@[i as int].0 == field@);
                return Some(i);
            }
            i = i + 1;
        }
        None
    }

    /// Whether `field` is bound.
    pub fn contains_key(&self, field: &str) -> (r: bool)
        ensures
            r == has_key(self@, field@),
    {
        self.position(field).is_some()
    }

    /// The values bound to `field`, if it is bound.
    pub fn get(&self, field: &str) -> (r: Option<&Vec<String>>)
        ensures
            r.is_some() == has_key(self@, field@),
            r.is_some() ==> r.unwrap().deep_view() == values_of(self@, field@),
    {
        match self.position(field) {
            Some(i) => {
                proof {
                    lemma_values_of_first(self@, field@, i as int);
                }
                Some(&self.entries[i].values)
            },
            None => None,
        }
    }

    /// Binds one more value to `field`: it follows the values already bound
    /// to that name, or opens a new binding after the existing ones.
    pub fn bind(&mut self, field: String, value: String)
        requires
            old(self).wf(),
        ensures
            final(self).wf(),
            binds(old(self)@, field@, value@, final(self)@),
    {
        match self.position(field.as_str()) {
            Some(i) => {
                let ghost before = self@;
                let ghost old_values = self.entries@[i as int].values.deep_view();
                self.entries[i].values.push(value);
                proof {
                    assert(self.entries@[i as int].values.deep_view() =~= old_values.push(value@));
                    assert(self@ =~= before.update(
                        i as int,
                        (field@, before[i as int].1.push(value@)),
                    ));
                    assert(is_first_key(before, field@, i as int));
                }
            },
            None => {
                let ghost before = self@;
                let mut values: Vec<String> = Vec::new();
                values.push(value);
                assert(values.deep_view() =~= seq![value@]);
                self.entries.push(Binding { field, values });
                proof {
                    assert(self@ =~= before.push((field@, seq![value@])));
                    assert forall|i: int, j: int| 0 <= i < j < self@.len() implies (
                    #[trigger] self@[i]).0 != (#[trigger] self@[j]).0 by {
                        if j == before.len() {
                            assert(before[i].0 != field@);
                        } else {
                            assert(before[i].0 != before[j].0);
                        }
                    }
                }
            },
        }
    }

    /// Binds the value of an input field to `field` if it is present; an
    /// absent value binds nothing.
    pub fn bind_value(&mut self, field: String, value: DomainIdValue)
        requires
            old(self).wf(),
        ensures
            final(self).wf(),
            match value@ {
                Some(v) => binds(old(self)@, field@, v, final(self)@),
                None => final(self)@ == old(self)@,
            },
    {
        match value {
            DomainIdValue::Value(v) => self.bind(field, v),
            DomainIdValue::Absent => {},
        }
    }
}


/// The value of one domain-ID field on an event instance.
#[derive(Debug, Clone)]
pub struct DomainId {
    /// The domain-ID field name.
    pub field: String,
    /// The value that the event carries for it.
    pub value: DomainIdValue,
}

impl View for DomainId {
    type V = (Seq<char>, Option<Seq<char>>);

    open spec fn view(&self) -> (Seq<char>, Option<Seq<char>>) {
        (self.field@, self.value@)
    }
}

/// The tags that index an event with the domain-ID values `ids`: one tag per
/// present value, in the order of `ids`; absent values give none.
pub open spec fn tags_of(ids: Seq<(Seq<char>, Option<Seq<char>>)>) -> Seq<Seq<char>>
    decreases ids.len(),
{
    if ids.len() == 0 {
        Seq::empty()
    } else {
        let rest = tags_of(ids.drop_last());
        match ids.last().1 {
            Some(v) => rest.push(tag_text(ids.last().0, v)),
            None => rest,
        }
    }
}

/// No field name holds the tag separator.
pub open spec fn fields_well_named(ids: Seq<(Seq<char>, Option<Seq<char>>)>) -> bool {
    forall|i: int| 0 <= i < ids.len() ==> !has_separator((#[trigger] ids[i]).0)
}

/// An event is indexed under the tag of each of its present values.
pub proof fn lemma_tags_of_contains(
    ids: Seq<(Seq<char>, Option<Seq<char>>)>,
    f: Seq<char>,
    v: Seq<char>,
)
    requires
        ids.contains((f, Some(v))),
    ensures
        tags_of(ids).contains(tag_text(f, v)),
    decreases ids.len(),
{
    let i = choose|i: int| 0 <= i < ids.len() && ids[i] == (f, Some(v));
    let rest = tags_of(ids.drop_last());
    if i == ids.len() - 1 {
        assert(rest.push(tag_text(f, v))[rest.len() as int] == tag_text(f, v));
    } else {
        assert(ids.drop_last()[i] == (f, Some(v)));
        lemma_tags_of_contains(ids.drop_last(), f, v);
        let k = choose|k: int| 0 <= k < rest.len() && rest[k] == tag_text(f, v);
        assert(tags_of(ids)[k] == tag_text(f, v));
    }
}

/// The domain-ID values of one event instance: one value, possibly absent,
/// per domain-ID field of its type.
#[derive(Debug, Clone)]
pub struct DomainIdValues {
    /// The values, in the order in which their fields were first given.
    pub entries: Vec<DomainId>,
}

impl View for DomainIdValues {
    type V = Seq<(Seq<char>, Option<Seq<char>>)>;

    open spec fn view(&self) -> Seq<(Seq<char>, Option<Seq<char>>)> {
        Seq::new(self.entries@.len(), |i: int| self.entries@[i]@)
    }
}

impl DomainIdValues {
    /// No values.
    pub fn new() -> (r: Self)
        ensures
            r@ == Seq::<(Seq<char>, Option<Seq<char>>)>::empty(),
    {
        let r = DomainIdValues { entries: Vec::new() };
        assert(r@ =~= Seq::<(Seq<char>, Option<Seq<char>>)>::empty());
        r
    }

    /// The number of fields that have a value.
    pub fn len(&self) -> (n: usize)
        ensures
            n == self@.len(),
    {
        self.entries.len()
    }

    /// Gives `field` the value `value`: in place of the value it had, or
    /// after the fields that have one.
    pub fn insert(&mut self, field: String, value: DomainIdValue)
        ensures
            (exists|i: int| 0 <= i < old(self)@.len() && (#[trigger] old(self)@[i]).0 == field@)
                ==> exists|i: int|
                0 <= i < old(self)@.len() && (#[trigger] old(self)@[i]).0 == field@ && final(self)@
                    == old(self)@.update(i, (field@, value@)),
            !(exists|i: int| 0 <= i < old(self)@.len() && (#[trigger] old(self)@[i]).0 == field@)
                ==> final(self)@ == old(self)@.push((field@, value@)),
    {
        let ghost before = self@;
        let mut i: usize = 0;
        while i < self.entries.len()
            invariant
                i <= self.entries@.len(),
                self@ == before,
                before == old(self)@,
                forall|j: int| 0 <= j < i ==> (#[trigger] before[j]).0 != field@,
            decreases self.entries@.len() - i,
        {
            if text_eq(self.entries[i].field.as_str(), field.as_str()) {
                assert(before[i as int].0 == field@);
                self.entries.set(i, DomainId { field, value });
                assert(self@ =~= before.update(i as int, (field@, value@)));
                return ;
            }
            i = i + 1;
        }
        self.entries.push(DomainId { field, value });
        assert(self@ =~= before.push((field@, value@)));
    }

    /// Whether no field name holds the tag separator.
    pub fn well_named(&self) -> (r: bool)
        ensures
            r == fields_well_named(self@),
    {
        let mut i: usize = 0;
        while i < self.entries.len()
            invariant
                i <= self.entries@.len(),
                forall|j: int| 0 <= j < i ==> !has_separator((#[trigger] self@[j]).0),
            decreases self.entries@.len() - i,
        {
            if contains_separator(self.entries[i].field.as_str()) {
                assert(has_separator(self@[i as int].0));
                return false;
            }
            i = i + 1;
        }
        true
    }

    /// The tags under which an event with these values is indexed.
    pub fn tags(&self) -> (tags: Vec<String>)
        ensures
            tags.deep_view() == tags_of(self@),
    {
        let mut tags: Vec<String> = Vec::new();
        let mut i: usize = 0;
        assert(tags.deep_view() =~= tags_of(self@.take(0)));
        while i < self.entries.len()
            invariant
                i <= self.entries@.len(),
                tags.deep_view() == tags_of(self@.take(i as int)),
            decreases self.entries@.len() - i,
        {
            let ghost before = tags.deep_view();
            proof {
                assert(self@.take(i + 1).drop_last() =~= self@.take(i as int));
                assert(self@.take(i + 1).last() == self@[i as int]);
            }
            match &self.entries[i].value {
                DomainIdValue::Value(v) => {
                    let tag = make_tag(self.entries[i].field.as_str(), v.as_str());
                    tags.push(tag);
                    assert(tags.deep_view() =~= before.push(tag@));
                },
                DomainIdValue::Absent => {},
            }
            i = i + 1;
        }
        assert(self@.take(i as int) =~= self@);
        tags
    }
}

} // verus!
