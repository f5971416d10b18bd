//! Query planning: from a command input's domain-ID bindings and the schema
//! of the events it reads to the items of a DCB query.

use vstd::prelude::*;
use vstd::string::*;

use crate::domain_id::{has_key, is_first_key, lemma_first_key_unique, DomainIdBindings};
use crate::product::{
    chooses_from, clone_texts, extend_combinations, lemma_product_characterised, product,
};
use crate::signature::{signature, signature_of, texts_contain, texts_equal};
use crate::text::{make_tag, tag_text};

verus! {

/// One item of a DCB query. An event matches the item when it carries all of
/// the item's tags and its type is one of the item's types.
#[derive(Debug, Clone)]
pub struct QueryItem {
    /// Tags that must all be present on the event.
    pub tags: Vec<String>,
    /// Event types, one of which the event must have.
    pub types: Vec<String>,
}

/// A query item as a mathematical value.
pub struct QueryItemView {
    /// Tags that must all be present on the event.
    pub tags: Seq<Seq<char>>,
    /// Event types, one of which the event must have.
    pub types: Seq<Seq<char>>,
}

impl View for QueryItem {
    type V = QueryItemView;

    open spec fn view(&self) -> QueryItemView {
        QueryItemView { tags: self.tags.deep_view(), types: self.types.deep_view() }
    }
}

/// The domain-ID fields by which one event type of an event set is queried:
/// the type's declared fields, or the narrower scope that the set gives it.
#[derive(Debug, Clone)]
pub struct EventDomainIds {
    /// The event type name.
    pub event_type: String,
    /// The domain-ID field names in effect for the type.
    pub fields: Vec<String>,
}

impl View for EventDomainIds {
    type V = (Seq<char>, Seq<Seq<char>>);

    open spec fn view(&self) -> (Seq<char>, Seq<Seq<char>>) {
        (self.event_type@, self.fields.deep_view())
    }
}

/// The entries of an event set's schema as mathematical values.
pub open spec fn schema_view(s: Seq<EventDomainIds>) -> Seq<(Seq<char>, Seq<Seq<char>>)> {
    Seq::new(s.len(), |i: int| s[i]@)
}

/// Query items as mathematical values.
pub open spec fn items_view(s: Seq<QueryItem>) -> Seq<QueryItemView> {
    Seq::new(s.len(), |i: int| s[i]@)
}

/// Whether an event of type `event_type` that carries `tags` matches `item`.
pub open spec fn item_matches(
    item: QueryItemView,
    event_type: Seq<char>,
    tags: Seq<Seq<char>>,
) -> bool {
    &&& item.types.contains(event_type)
    &&& forall|t: Seq<char>| #[trigger] item.tags.contains(t) ==> tags.contains(t)
}

/// Whether an event matches some item of a query.
pub open spec fn query_matches(
    items: Seq<QueryItemView>,
    event_type: Seq<char>,
    tags: Seq<Seq<char>>,
) -> bool {
    exists|k: int| 0 <= k < items.len() && item_matches(#[trigger] items[k], event_type, tags)
}

/// The groups from which the items of a bucket choose: for each binding, in
/// insertion order, its values if the signature holds its field name, and
/// else the single empty choice.
pub open spec fn choice_groups(
    sig: Seq<Seq<char>>,
    b: Seq<(Seq<char>, Seq<Seq<char>>)>,
) -> Seq<Seq<Seq<char>>> {
    Seq::new(
        b.len(),
        |i: int|
            if sig.contains(b[i].0) {
                b[i].1
            } else {
                seq![Seq::<char>::empty()]
            },
    )
}

/// The position of the first binding for the field name `k`.
pub open spec fn first_key_index(b: Seq<(Seq<char>, Seq<Seq<char>>)>, k: Seq<char>) -> int {
    choose|p: int| is_first_key(b, k, p)
}

/// The tags of the item that a choice gives: one per field of the signature,
/// in the signature's order, each the field name with the value chosen for
/// it.
pub open spec fn item_tags(
    sig: Seq<Seq<char>>,
    b: Seq<(Seq<char>, Seq<Seq<char>>)>,
    choice: Seq<Seq<char>>,
) -> Seq<Seq<char>> {
    Seq::new(sig.len(), |i: int| tag_text(sig[i], choice[first_key_index(b, sig[i])]))
}

/// The event types of `schema` whose signature under `b` is `sig`, in schema
/// order.
pub open spec fn types_with(
    schema: Seq<(Seq<char>, Seq<Seq<char>>)>,
    b: Seq<(Seq<char>, Seq<Seq<char>>)>,
    sig: Seq<Seq<char>>,
) -> Seq<Seq<char>>
    decreases schema.len(),
{
    if schema.len() == 0 {
        Seq::empty()
    } else {
        let rest = types_with(schema.drop_last(), b, sig);
        if signature(schema.last().1, b) == sig {
            rest.push(schema.last().0)
        } else {
            rest
        }
    }
}

/// The items of one bucket: one item per element of the Cartesian product of
/// the values bound to the signature's fields, all for the bucket's types.
pub open spec fn bucket_items(
    sig: Seq<Seq<char>>,
    types: Seq<Seq<char>>,
    b: Seq<(Seq<char>, Seq<Seq<char>>)>,
) -> Seq<QueryItemView> {
    product(choice_groups(sig, b)).map_values(
        |c: Seq<Seq<char>>| QueryItemView { tags: item_tags(sig, b, c), types },
    )
}

/// Whether entry `i` of the schema is the first with its signature.
pub open spec fn opens_bucket(
    schema: Seq<(Seq<char>, Seq<Seq<char>>)>,
    b: Seq<(Seq<char>, Seq<Seq<char>>)>,
    i: int,
) -> bool {
    forall|j: int| 0 <= j < i ==> signature(#[trigger] schema[j].1, b) != signature(schema[i].1, b)
}

/// What entry `i` of the schema adds to the plan: the items of its bucket if
/// it is the first entry with its signature, and nothing otherwise.
pub open spec fn bucket_at(
    schema: Seq<(Seq<char>, Seq<Seq<char>>)>,
    b: Seq<(Seq<char>, Seq<Seq<char>>)>,
    i: int,
) -> Seq<QueryItemView> {
    if opens_bucket(schema, b, i) {
        let sig = signature(schema[i].1, b);
        bucket_items(sig, types_with(schema, b, sig), b)
    } else {
        Seq::empty()
    }
}

/// The items planned for the first `n` entries of the schema.
pub open spec fn plan_prefix(
    schema: Seq<(Seq<char>, Seq<Seq<char>>)>,
    b: Seq<(Seq<char>, Seq<Seq<char>>)>,
    n: nat,
) -> Seq<QueryItemView>
    decreases n,
{
    if n == 0 {
        Seq::empty()
    } else {
        plan_prefix(schema, b, (n - 1) as nat) + bucket_at(schema, b, n - 1)
    }
}

/// The query items planned for bindings `b` against an event set with schema
/// `schema`.
///
/// Event types are grouped by signature, buckets in order of their first
/// event type; each bucket gives one item per combination of bound values.
/// With neither bindings nor event types the plan is the single item without
/// tags and types.
pub open spec fn plan(
    schema: Seq<(Seq<char>, Seq<Seq<char>>)>,
    b: Seq<(Seq<char>, Seq<Seq<char>>)>,
) -> Seq<QueryItemView> {
    if schema.len() == 0 && b.len() == 0 {
        seq![QueryItemView { tags: Seq::empty(), types: Seq::empty() }]
    } else {
        plan_prefix(schema, b, schema.len())
    }
}


/// Every combination of values for the fields of a signature.
pub fn choices(sig: &Vec<String>, bindings: &DomainIdBindings) -> (out: Vec<Vec<String>>)
    ensures
        out.deep_view() == product(choice_groups(sig.deep_view(), bindings@)),
{
    let ghost groups = choice_groups(sig.deep_view(), bindings@);
    let mut out: Vec<Vec<String>> = Vec::new();
    out.push(Vec::new());
    assert(out.deep_view() =~= product(groups.take(0))) by {
        assert(groups.take(0).len() == 0);
        assert(out.deep_view()[0] =~= Seq::<Seq<char>>::empty());
    }
    let mut i: usize = 0;
    while i < bindings.entries.len()
        invariant
            i <= bindings.entries.len(),
            groups == choice_groups(sig.deep_view(), bindings@),
            groups.len() == bindings.entries.len(),
            out.deep_view() == product(groups.take(i as int)),
        decreases bindings.entries.len() - i,
    {
        proof {
            assert(groups.take(i + 1).drop_last() =~= groups.take(i as int));
            assert(groups.take(i + 1).last() == groups[i as int]);
            assert(bindings@[i as int] == bindings.entries@[i as int]@);
        }
        if texts_contain(sig, bindings.entries[i].field.as_str()) {
            out = extend_combinations(&out, &bindings.entries[i].values);
        } else {
            let mut single: Vec<String> = Vec::new();
            single.push(String::new());
            assert(single.deep_view() =~= seq![Seq::<char>::empty()]);
            out = extend_combinations(&out, &single);
        }
        i = i + 1;
    }
    assert(groups.take(i as int) =~= groups);
    out
}

/// The tags of the item that one combination of values gives.
pub fn tags_of_choice(
    sig: &Vec<String>,
    bindings: &DomainIdBindings,
    choice: &Vec<String>,
) -> (tags: Vec<String>)
    requires
        forall|f: Seq<char>| #[trigger] sig.deep_view().contains(f) ==> has_key(bindings@, f),
        choice.len() == bindings@.len(),
    ensures
        tags.deep_view() == item_tags(sig.deep_view(), bindings@, choice.deep_view()),
{
    let mut tags: Vec<String> = Vec::new();
    let mut i: usize = 0;
    while i < sig.len()
        invariant
            i <= sig.len(),
            forall|f: Seq<char>| #[trigger] sig.deep_view().contains(f) ==> has_key(bindings@, f),
            choice.len() == bindings@.len(),
            tags.deep_view() == item_tags(sig.deep_view(), bindings@, choice.deep_view()).take(
                i as int,
            ),
        decreases sig.len() - i,
    {
        let ghost before = tags.deep_view();
        assert(sig.deep_view().contains(sig.deep_view()[i as int]));
        match bindings.position(sig[i].as_str()) {
            Some(p) => {
                proof {
                    lemma_first_key_unique(
                        bindings@,
                        sig[i as int]@,
                        p as int,
                        first_key_index(bindings@, sig[i as int]@),
                    );
                }
                let tag = make_tag(sig[i].as_str(), choice[p].as_str());
                tags.push(tag);
                assert(tags.deep_view() =~= before.push(tag@));
            },
            None => {
                assert(false);
            },
        }
        assert(tags.deep_view() =~= item_tags(
            sig.deep_view(),
            bindings@,
            choice.deep_view(),
        ).take(i + 1));
        i = i + 1;
    }
    assert(item_tags(sig.deep_view(), bindings@, choice.deep_view()).take(i as int)
        =~= item_tags(sig.deep_view(), bindings@, choice.deep_view()));
    tags
}

/// The items of the bucket with signature `sig` and event types `types`.
pub fn bucket(sig: &Vec<String>, types: &Vec<String>, bindings: &DomainIdBindings) -> (out: Vec<
    QueryItem,
>)
    requires
        forall|f: Seq<char>| #[trigger] sig.deep_view().contains(f) ==> has_key(bindings@, f),
    ensures
        items_view(out@) == bucket_items(sig.deep_view(), types.deep_view(), bindings@),
{
    let combos = choices(sig, bindings);
    let ghost all = product(choice_groups(sig.deep_view(), bindings@));
    let ghost expected = bucket_items(sig.deep_view(), types.deep_view(), bindings@);
    let mut out: Vec<QueryItem> = Vec::new();
    let mut k: usize = 0;
    while k < combos.len()
        invariant
            k <= combos.len(),
            combos.deep_view() == all,
            all == product(choice_groups(sig.deep_view(), bindings@)),
            expected == bucket_items(sig.deep_view(), types.deep_view(), bindings@),
            forall|f: Seq<char>| #[trigger] sig.deep_view().contains(f) ==> has_key(bindings@, f),
            items_view(out@) == expected.take(k as int),
        decreases combos.len() - k,
    {
        let ghost before = items_view(out@);
        proof {
            assert(all.contains(all[k as int]));
            lemma_product_characterised(
                choice_groups(sig.deep_view(), bindings@),
                combos.deep_view()[k as int],
            );
        }
        let tags = tags_of_choice(sig, bindings, &combos[k]);
        let item = QueryItem { tags, types: clone_texts(types) };
        assert(item@ == expected[k as int]);
        out.push(item);
        assert(items_view(out@) =~= before.push(item@));
        assert(items_view(out@) =~= expected.take(k + 1));
        k = k + 1;
    }
    assert(expected.take(k as int) =~= expected);
    out
}

/// The signature of every entry of a schema.
pub fn signatures(schema: &Vec<EventDomainIds>, bindings: &DomainIdBindings) -> (sigs: Vec<
    Vec<String>,
>)
    ensures
        sigs.len() == schema.len(),
        forall|i: int|
            0 <= i < schema.len() ==> (#[trigger] sigs.deep_view()[i]) == signature(
                schema_view(schema@)[i].1,
                bindings@,
            ),
        forall|i: int, f: Seq<char>|
            0 <= i < schema.len() && (#[trigger] sigs.deep_view()[i]).contains(f)
                ==> #[trigger] has_key(bindings@, f),
{
    let mut sigs: Vec<Vec<String>> = Vec::new();
    let mut i: usize = 0;
    while i < schema.len()
        invariant
            i <= schema.len(),
            sigs.len() == i,
            forall|k: int|
                0 <= k < i ==> (#[trigger] sigs.deep_view()[k]) == signature(
                    schema_view(schema@)[k].1,
                    bindings@,
                ),
            forall|k: int, f: Seq<char>|
                0 <= k < i && (#[trigger] sigs.deep_view()[k]).contains(f) ==> #[trigger] has_key(
                    bindings@,
                    f,
                ),
        decreases schema.len() - i,
    {
        let ghost before = sigs.deep_view();
        let sig = signature_of(&schema[i].fields, bindings);
        sigs.push(sig);
        assert(sigs.deep_view() =~= before.push(sig.deep_view()));
        i = i + 1;
    }
    sigs
}

/// The event types of the schema whose signature is that of entry `at`.
pub fn bucket_types(
    schema: &Vec<EventDomainIds>,
    bindings: &DomainIdBindings,
    sigs: &Vec<Vec<String>>,
    at: usize,
) -> (types: Vec<String>)
    requires
        at < schema.len(),
        sigs.len() == schema.len(),
        forall|i: int|
            0 <= i < schema.len() ==> (#[trigger] sigs.deep_view()[i]) == signature(
                schema_view(schema@)[i].1,
                bindings@,
            ),
    ensures
        types.deep_view() == types_with(
            schema_view(schema@),
            bindings@,
            signature(schema_view(schema@)[at as int].1, bindings@),
        ),
{
    let ghost model = schema_view(schema@);
    let ghost sig = signature(model[at as int].1, bindings@);
    let mut types: Vec<String> = Vec::new();
    let mut k: usize = 0;
    assert(types.deep_view() =~= types_with(model.take(0), bindings@, sig));
    while k < schema.len()
        invariant
            k <= schema.len(),
            at < schema.len(),
            sigs.len() == schema.len(),
            model == schema_view(schema@),
            sig == signature(model[at as int].1, bindings@),
            forall|i: int|
                0 <= i < schema.len() ==> (#[trigger] sigs.deep_view()[i]) == signature(
                    model[i].1,
                    bindings@,
                ),
            types.deep_view() == types_with(model.take(k as int), bindings@, sig),
        decreases schema.len() - k,
    {
        let ghost before = types.deep_view();
        proof {
            assert(model.take(k + 1).drop_last() =~= model.take(k as int));
            assert(model.take(k + 1).last() == model[k as int]);
            assert(sigs.deep_view()[k as int] == signature(model[k as int].1, bindings@));
            assert(sigs.deep_view()[at as int] == sig);
        }
        if texts_equal(&sigs[k], &sigs[at]) {
            let name = schema[k].event_type.clone();
            types.push(name);
            assert(types.deep_view() =~= before.push(model[k as int].0));
        }
        k = k + 1;
    }
    assert(model.take(k as int) =~= model);
    types
}

/// Whether entry `at` of the schema is the first with its signature.
pub fn is_first_with_signature(
    schema: &Vec<EventDomainIds>,
    bindings: &DomainIdBindings,
    sigs: &Vec<Vec<String>>,
    at: usize,
) -> (r: bool)
    requires
        at < schema.len(),
        sigs.len() == schema.len(),
        forall|i: int|
            0 <= i < schema.len() ==> (#[trigger] sigs.deep_view()[i]) == signature(
                schema_view(schema@)[i].1,
                bindings@,
            ),
    ensures
        r == opens_bucket(schema_view(schema@), bindings@, at as int),
{
    let ghost model = schema_view(schema@);
    let mut j: usize = 0;
    while j < at
        invariant
            j <= at,
            at < schema.len(),
            sigs.len() == schema.len(),
            model == schema_view(schema@),
            forall|i: int|
                0 <= i < schema.len() ==> (#[trigger] sigs.deep_view()[i]) == signature(
                    model[i].1,
                    bindings@,
                ),
            forall|i: int|
                0 <= i < j ==> signature(#[trigger] model[i].1, bindings@) != signature(
                    model[at as int].1,
                    bindings@,
                ),
        decreases at - j,
    {
        proof {
            assert(sigs.deep_view()[j as int] == signature(model[j as int].1, bindings@));
            assert(sigs.deep_view()[at as int] == signature(model[at as int].1, bindings@));
        }
        if texts_equal(&sigs[j], &sigs[at]) {
            return false;
        }
        j = j + 1;
    }
    true
}

/// Builds the items of the DCB query for a command: the events of the given
/// event set that lie within the consistency boundary named by the bindings.
pub fn build_query_items(
    bindings: &DomainIdBindings,
    event_domain_ids: &Vec<EventDomainIds>,
) -> (items: Vec<QueryItem>)
    ensures
        items_view(items@) == plan(schema_view(event_domain_ids@), bindings@),
{
    let ghost model = schema_view(event_domain_ids@);
    let mut items: Vec<QueryItem> = Vec::new();
    if event_domain_ids.len() == 0 && bindings.is_empty() {
        items.push(QueryItem { tags: Vec::new(), types: Vec::new() });
        assert(items_view(items@) =~= plan(model, bindings@)) by {
            assert(items@[0]@.tags =~= Seq::<Seq<char>>::empty());
            assert(items@[0]@.types =~= Seq::<Seq<char>>::empty());
        }
        return items;
    }
    let sigs = signatures(event_domain_ids, bindings);
    let mut i: usize = 0;
    assert(items_view(items@) =~= plan_prefix(model, bindings@, 0));
    while i < event_domain_ids.len()
        invariant
            i <= event_domain_ids.len(),
            model == schema_view(event_domain_ids@),
            sigs.len() == event_domain_ids.len(),
            forall|k: int|
                0 <= k < event_domain_ids.len() ==> (#[trigger] sigs.deep_view()[k]) == signature(
                    model[k].1,
                    bindings@,
                ),
            forall|k: int, f: Seq<char>|
                0 <= k < event_domain_ids.len() && (#[trigger] sigs.deep_view()[k]).contains(f)
                    ==> #[trigger] has_key(bindings@, f),
            items_view(items@) == plan_prefix(model, bindings@, i as nat),
        decreases event_domain_ids.len() - i,
    {
        let ghost before = items_view(items@);
        if is_first_with_signature(event_domain_ids, bindings, &sigs, i) {
            let types = bucket_types(event_domain_ids, bindings, &sigs, i);
            proof {
                assert(sigs.deep_view()[i as int] == signature(model[i as int].1, bindings@));
                assert forall|f: Seq<char>| #[trigger]
                    sigs[i as int].deep_view().contains(f) implies has_key(bindings@, f) by {
                    assert(sigs.deep_view()[i as int].contains(f));
                }
            }
            let mut more = bucket(&sigs[i], &types, bindings);
            let ghost added = items_view(more@);
            items.append(&mut more);
            assert(items_view(items@) =~= before + added);
        }
        assert(items_view(items@) == before + bucket_at(model, bindings@, i as int));
        i = i + 1;
    }
    items
}

} // verus!
