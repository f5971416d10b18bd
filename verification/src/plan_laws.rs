//! What holds of every query plan.

use vstd::prelude::*;

use crate::domain_id::{
    has_key, is_first_key, keys_unique, lemma_tags_of_contains, lemma_values_of_first, tags_of,
    values_of,
};
use crate::product::{lemma_product_characterised, product};
use crate::query::{
    bucket_at, bucket_items, choice_groups, first_key_index, item_matches, item_tags, opens_bucket,
    plan, plan_prefix, query_matches, types_with, QueryItemView,
};
use crate::signature::{
    is_signature, lemma_signature_exists, lemma_signature_is, signature, strictly_sorted,
};
use crate::text::{lemma_text_lt_irreflexive, tag_text, text_lt};

verus! {

/// Where field names are unique, a binding's position is the first for its
/// field name.
pub proof fn lemma_unique_key_is_first(b: Seq<(Seq<char>, Seq<Seq<char>>)>, p: int)
    requires
        keys_unique(b),
        0 <= p < b.len(),
    ensures
        is_first_key(b, b[p].0, p),
        first_key_index(b, b[p].0) == p,
        values_of(b, b[p].0) == b[p].1,
{
    assert forall|j: int| 0 <= j < p implies (#[trigger] b[j]).0 != b[p].0 by {
        assert(b[j].0 != b[p].0);
    }
    lemma_values_of_first(b, b[p].0, p);
    let q = first_key_index(b, b[p].0);
    assert(is_first_key(b, b[p].0, q));
    if q < p {
        assert(b[q].0 != b[p].0);
    } else if p < q {
        assert(b[p].0 != b[q].0);
    }
}

/// An element of a strictly sorted sequence stands at one position only.
pub proof fn lemma_sorted_position_unique(s: Seq<Seq<char>>, i: int, j: int)
    requires
        strictly_sorted(s),
        0 <= i < s.len(),
        0 <= j < s.len(),
        s[i] == s[j],
    ensures
        i == j,
{
    lemma_text_lt_irreflexive(s[i]);
    if i < j {
        assert(text_lt(s[i], s[j]));
    } else if j < i {
        assert(text_lt(s[j], s[i]));
    }
}

/// The event types of a bucket include every type with the bucket's
/// signature.
pub proof fn lemma_types_with_contains(
    schema: Seq<(Seq<char>, Seq<Seq<char>>)>,
    b: Seq<(Seq<char>, Seq<Seq<char>>)>,
    sig: Seq<Seq<char>>,
    i: int,
)
    requires
        0 <= i < schema.len(),
        signature(schema[i].1, b) == sig,
    ensures
        types_with(schema, b, sig).contains(schema[i].0),
    decreases schema.len(),
{
    let rest = types_with(schema.drop_last(), b, sig);
    if i == schema.len() - 1 {
        assert(rest.push(schema.last().0)[rest.len() as int] == schema[i].0);
    } else {
        assert(schema.drop_last()[i] == schema[i]);
        lemma_types_with_contains(schema.drop_last(), b, sig, i);
        let k = choose|k: int| 0 <= k < rest.len() && rest[k] == schema[i].0;
        assert(types_with(schema, b, sig)[k] == schema[i].0);
    }
}

/// The plan holds the items of every bucket.
pub proof fn lemma_plan_prefix_contains(
    schema: Seq<(Seq<char>, Seq<Seq<char>>)>,
    b: Seq<(Seq<char>, Seq<Seq<char>>)>,
    n: nat,
    j: int,
    item: QueryItemView,
)
    requires
        0 <= j < n,
        bucket_at(schema, b, j).contains(item),
    ensures
        plan_prefix(schema, b, n).contains(item),
    decreases n,
{
    let front = plan_prefix(schema, b, (n - 1) as nat);
    let back = bucket_at(schema, b, n - 1);
    if j == n - 1 {
        let k = choose|k: int| 0 <= k < back.len() && back[k] == item;
        assert((front + back)[front.len() + k] == item);
    } else {
        lemma_plan_prefix_contains(schema, b, (n - 1) as nat, j, item);
        let k = choose|k: int| 0 <= k < front.len() && front[k] == item;
        assert((front + back)[k] == item);
    }
}

/// Every entry of the schema shares its signature with an entry that opens a
/// bucket.
pub proof fn lemma_first_with_signature(
    schema: Seq<(Seq<char>, Seq<Seq<char>>)>,
    b: Seq<(Seq<char>, Seq<Seq<char>>)>,
    i: int,
) -> (j: int)
    requires
        0 <= i < schema.len(),
    ensures
        0 <= j <= i,
        opens_bucket(schema, b, j),
        signature(schema[j].1, b) == signature(schema[i].1, b),
    decreases i,
{
    if opens_bucket(schema, b, i) {
        i
    } else {
        let k = choose|k: int|
            0 <= k < i && signature(#[trigger] schema[k].1, b) == signature(schema[i].1, b);
        lemma_first_with_signature(schema, b, k)
    }
}

/// A bucket holds the item for every way of giving each field of its
/// signature one of the values bound to it.
pub proof fn lemma_bucket_member(
    sig: Seq<Seq<char>>,
    types: Seq<Seq<char>>,
    b: Seq<(Seq<char>, Seq<Seq<char>>)>,
    w: Seq<Seq<char>>,
)
    requires
        keys_unique(b),
        strictly_sorted(sig),
        forall|f: Seq<char>| #[trigger] sig.contains(f) ==> has_key(b, f),
        w.len() == sig.len(),
        forall|k: int| 0 <= k < sig.len() ==> values_of(b, #[trigger] sig[k]).contains(w[k]),
    ensures
        bucket_items(sig, types, b).contains(
            QueryItemView { tags: Seq::new(sig.len(), |k: int| tag_text(sig[k], w[k])), types },
        ),
{
    let groups = choice_groups(sig, b);
    let c = Seq::new(
        b.len(),
        |p: int|
            if sig.contains(b[p].0) {
                w[sig.index_of(b[p].0)]
            } else {
                Seq::<char>::empty()
            },
    );
    assert forall|p: int| 0 <= p < groups.len() implies (#[trigger] groups[p]).contains(c[p]) by {
        if sig.contains(b[p].0) {
            let k = sig.index_of(b[p].0);
            assert(0 <= k < sig.len() && sig[k] == b[p].0);
            lemma_unique_key_is_first(b, p);
            assert(values_of(b, sig[k]).contains(w[k]));
        } else {
            assert(seq![Seq::<char>::empty()][0] == Seq::<char>::empty());
        }
    }
    lemma_product_characterised(groups, c);
    let all = product(groups);
    let m = choose|m: int| 0 <= m < all.len() && all[m] == c;
    let tags = Seq::new(sig.len(), |k: int| tag_text(sig[k], w[k]));
    assert(item_tags(sig, b, c) =~= tags) by {
        assert forall|k: int| 0 <= k < sig.len() implies item_tags(sig, b, c)[k] == tags[k] by {
            assert(sig.contains(sig[k]));
            assert(has_key(b, sig[k]));
            let p = choose|p: int| 0 <= p < b.len() && (#[trigger] b[p]).0 == sig[k];
            lemma_unique_key_is_first(b, p);
            assert(first_key_index(b, sig[k]) == p);
            let k2 = sig.index_of(b[p].0);
            assert(0 <= k2 < sig.len() && sig[k2] == sig[k]);
            lemma_sorted_position_unique(sig, k, k2);
        }
    }
    assert(bucket_items(sig, types, b)[m] == QueryItemView { tags, types });
}

/// Plan soundness: the plan matches every event of a type of the event set
/// that carries, for each bound domain-ID field of its type, one of the
/// values bound to that field.
///
/// `schema[i]` is the event's type with its domain-ID fields, `ids` the
/// domain-ID values of the event, from which its tags derive.
pub proof fn lemma_plan_sound(
    schema: Seq<(Seq<char>, Seq<Seq<char>>)>,
    b: Seq<(Seq<char>, Seq<Seq<char>>)>,
    i: int,
    ids: Seq<(Seq<char>, Option<Seq<char>>)>,
)
    requires
        keys_unique(b),
        0 <= i < schema.len(),
        forall|f: Seq<char>|
            schema[i].1.contains(f) && #[trigger] has_key(b, f) ==> exists|v: Seq<char>|
                ids.contains((f, Some(v))) && #[trigger] values_of(b, f).contains(v),
    ensures
        query_matches(plan(schema, b), schema[i].0, tags_of(ids)),
{
    let fields = schema[i].1;
    let sig = signature(fields, b);
    lemma_signature_exists(fields, b);
    assert(is_signature(sig, fields, b));
    let w = Seq::new(
        sig.len(),
        |k: int|
            choose|v: Seq<char>|
                ids.contains((sig[k], Some(v))) && #[trigger] values_of(b, sig[k]).contains(v),
    );
    assert forall|k: int| 0 <= k < sig.len() implies ids.contains((sig[k], Some(w[k])))
        && values_of(b, #[trigger] sig[k]).contains(w[k]) by {
        assert(sig.contains(sig[k]));
        assert(fields.contains(sig[k]) && has_key(b, sig[k]));
    }
    let j = lemma_first_with_signature(schema, b, i);
    let types = types_with(schema, b, sig);
    let item = QueryItemView { tags: Seq::new(sig.len(), |k: int| tag_text(sig[k], w[k])), types };
    lemma_bucket_member(sig, types, b, w);
    assert(bucket_at(schema, b, j).contains(item));
    lemma_plan_prefix_contains(schema, b, schema.len(), j, item);
    lemma_types_with_contains(schema, b, sig, i);
    assert forall|t: Seq<char>| #[trigger] item.tags.contains(t) implies tags_of(ids).contains(
        t,
    ) by {
        let k = choose|k: int| 0 <= k < item.tags.len() && item.tags[k] == t;
        assert(ids.contains((sig[k], Some(w[k]))));
        lemma_tags_of_contains(ids, sig[k], w[k]);
    }
    assert(item_matches(item, schema[i].0, tags_of(ids)));
    let items = plan(schema, b);
    let at = choose|at: int| 0 <= at < items.len() && items[at] == item;
    assert(item_matches(items[at], schema[i].0, tags_of(ids)));
}


/// `t` is the tag of the field `f` with one of the values bound to it.
pub open spec fn is_bound_tag(
    b: Seq<(Seq<char>, Seq<Seq<char>>)>,
    f: Seq<char>,
    t: Seq<char>,
) -> bool {
    exists|v: Seq<char>| #[trigger] values_of(b, f).contains(v) && t == tag_text(f, v)
}

/// `item` gives each field of the signature, in order, a tag with one of the
/// values bound to the field, and has the bucket's types.
pub open spec fn is_bucket_item(
    sig: Seq<Seq<char>>,
    types: Seq<Seq<char>>,
    b: Seq<(Seq<char>, Seq<Seq<char>>)>,
    item: QueryItemView,
) -> bool {
    &&& item.types == types
    &&& item.tags.len() == sig.len()
    &&& forall|k: int| 0 <= k < sig.len() ==> is_bound_tag(b, sig[k], #[trigger] item.tags[k])
}

/// The items of a bucket are exactly the ways of giving each field of its
/// signature one of the values bound to it.
pub proof fn lemma_bucket_items_characterised(
    sig: Seq<Seq<char>>,
    types: Seq<Seq<char>>,
    b: Seq<(Seq<char>, Seq<Seq<char>>)>,
    item: QueryItemView,
)
    requires
        keys_unique(b),
        strictly_sorted(sig),
        forall|f: Seq<char>| #[trigger] sig.contains(f) ==> has_key(b, f),
    ensures
        bucket_items(sig, types, b).contains(item) <==> is_bucket_item(sig, types, b, item),
{
    if bucket_items(sig, types, b).contains(item) {
        let groups = choice_groups(sig, b);
        let all = product(groups);
        let m = choose|m: int|
            0 <= m < bucket_items(sig, types, b).len() && bucket_items(sig, types, b)[m] == item;
        let c = all[m];
        assert(all.contains(c));
        lemma_product_characterised(groups, c);
        assert forall|k: int| 0 <= k < sig.len() implies is_bound_tag(
            b,
            sig[k],
            #[trigger] item.tags[k],
        ) by {
            assert(sig.contains(sig[k]));
            let p = choose|p: int| 0 <= p < b.len() && (#[trigger] b[p]).0 == sig[k];
            lemma_unique_key_is_first(b, p);
            assert(groups[p].contains(c[p]));
            assert(values_of(b, sig[k]).contains(c[p]));
            assert(item.tags[k] == tag_text(sig[k], c[p]));
        }
    }
    if is_bucket_item(sig, types, b, item) {
        let w = Seq::new(
            sig.len(),
            |k: int|
                choose|v: Seq<char>|
                    #[trigger] values_of(b, sig[k]).contains(v) && item.tags[k] == tag_text(
                        sig[k],
                        v,
                    ),
        );
        assert forall|k: int| 0 <= k < sig.len() implies values_of(b, #[trigger] sig[k]).contains(
            w[k],
        ) && item.tags[k] == tag_text(sig[k], w[k]) by {
            assert(is_bound_tag(b, sig[k], item.tags[k]));
        }
        lemma_bucket_member(sig, types, b, w);
        assert(item.tags =~= Seq::new(sig.len(), |k: int| tag_text(sig[k], w[k])));
    }
}

/// The items of a plan are exactly the items of the buckets that its schema
/// opens.
pub proof fn lemma_plan_prefix_members(
    schema: Seq<(Seq<char>, Seq<Seq<char>>)>,
    b: Seq<(Seq<char>, Seq<Seq<char>>)>,
    n: nat,
    item: QueryItemView,
)
    ensures
        plan_prefix(schema, b, n).contains(item) <==> exists|j: int|
            0 <= j < n && #[trigger] bucket_at(schema, b, j).contains(item),
    decreases n,
{
    if n > 0 {
        let front = plan_prefix(schema, b, (n - 1) as nat);
        let back = bucket_at(schema, b, n - 1);
        lemma_plan_prefix_members(schema, b, (n - 1) as nat, item);
        if plan_prefix(schema, b, n).contains(item) {
            let k = choose|k: int| 0 <= k < (front + back).len() && (front + back)[k] == item;
            if k < front.len() {
                assert(front[k] == item);
                assert(front.contains(item));
                let j = choose|j: int|
                    0 <= j < n - 1 && #[trigger] bucket_at(schema, b, j).contains(item);
                assert(bucket_at(schema, b, j).contains(item));
            } else {
                assert(back[k - front.len()] == item);
                assert(bucket_at(schema, b, n - 1).contains(item));
            }
        }
        if exists|j: int| 0 <= j < n && #[trigger] bucket_at(schema, b, j).contains(item) {
            let j = choose|j: int| 0 <= j < n && #[trigger] bucket_at(schema, b, j).contains(item);
            lemma_plan_prefix_contains(schema, b, n, j, item);
        }
    }
}

/// Two bindings values bind the same field names to the same values.
pub open spec fn same_bindings(
    b1: Seq<(Seq<char>, Seq<Seq<char>>)>,
    b2: Seq<(Seq<char>, Seq<Seq<char>>)>,
) -> bool {
    forall|k: Seq<char>|
        #![trigger has_key(b1, k)]
        #![trigger has_key(b2, k)]
        has_key(b1, k) == has_key(b2, k) && values_of(b1, k) == values_of(b2, k)
}

/// The signature of an event type depends on which field names are bound,
/// not on the order of the bindings.
pub proof fn lemma_signature_same(
    fields: Seq<Seq<char>>,
    b1: Seq<(Seq<char>, Seq<Seq<char>>)>,
    b2: Seq<(Seq<char>, Seq<Seq<char>>)>,
)
    requires
        same_bindings(b1, b2),
    ensures
        signature(fields, b1) == signature(fields, b2),
{
    lemma_signature_exists(fields, b1);
    let s = signature(fields, b1);
    assert forall|f: Seq<char>| #[trigger] s.contains(f) <==> (fields.contains(f) && has_key(
        b2,
        f,
    )) by {
        assert(has_key(b1, f) == has_key(b2, f));
    }
    lemma_signature_is(s, fields, b2);
}

/// The event types of a bucket do not depend on the order of the bindings.
pub proof fn lemma_types_with_same(
    schema: Seq<(Seq<char>, Seq<Seq<char>>)>,
    b1: Seq<(Seq<char>, Seq<Seq<char>>)>,
    b2: Seq<(Seq<char>, Seq<Seq<char>>)>,
    sig: Seq<Seq<char>>,
)
    requires
        same_bindings(b1, b2),
    ensures
        types_with(schema, b1, sig) == types_with(schema, b2, sig),
    decreases schema.len(),
{
    if schema.len() > 0 {
        lemma_types_with_same(schema.drop_last(), b1, b2, sig);
        lemma_signature_same(schema.last().1, b1, b2);
    }
}

/// What one entry of the schema adds to the plan holds the same items
/// whatever the order of the bindings.
pub proof fn lemma_bucket_at_same(
    schema: Seq<(Seq<char>, Seq<Seq<char>>)>,
    b1: Seq<(Seq<char>, Seq<Seq<char>>)>,
    b2: Seq<(Seq<char>, Seq<Seq<char>>)>,
    j: int,
    item: QueryItemView,
)
    requires
        keys_unique(b1),
        keys_unique(b2),
        same_bindings(b1, b2),
        0 <= j < schema.len(),
        bucket_at(schema, b1, j).contains(item),
    ensures
        bucket_at(schema, b2, j).contains(item),
{
    assert forall|k: int| 0 <= k < schema.len() implies signature(#[trigger] schema[k].1, b1)
        == signature(schema[k].1, b2) by {
        lemma_signature_same(schema[k].1, b1, b2);
    }
    if !opens_bucket(schema, b1, j) {
        assert(bucket_at(schema, b1, j).len() == 0);
    }
    assert(opens_bucket(schema, b1, j));
    assert(opens_bucket(schema, b2, j));
    let sig = signature(schema[j].1, b1);
    lemma_signature_exists(schema[j].1, b1);
    lemma_types_with_same(schema, b1, b2, sig);
    let types = types_with(schema, b1, sig);
    assert forall|f: Seq<char>| #[trigger] sig.contains(f) implies has_key(b1, f) && has_key(
        b2,
        f,
    ) by {
        assert(has_key(b1, f) == has_key(b2, f));
    }
    lemma_bucket_items_characterised(sig, types, b1, item);
    assert(is_bucket_item(sig, types, b2, item)) by {
        assert forall|k: int| 0 <= k < sig.len() implies is_bound_tag(
            b2,
            sig[k],
            #[trigger] item.tags[k],
        ) by {
            assert(has_key(b1, sig[k]) == has_key(b2, sig[k]));
            assert(values_of(b1, sig[k]) == values_of(b2, sig[k]));
            assert(is_bound_tag(b1, sig[k], item.tags[k]));
        }
    }
    lemma_bucket_items_characterised(sig, types, b2, item);
}

/// The plan is the same set of items for bindings that bind the same field
/// names to the same values, in whatever order the names were bound.
/// Together with the planner's contract, which makes the plan a function of
/// the bindings and the schema, this makes planning repeatable.
pub proof fn lemma_plan_insensitive_to_binding_order(
    schema: Seq<(Seq<char>, Seq<Seq<char>>)>,
    b1: Seq<(Seq<char>, Seq<Seq<char>>)>,
    b2: Seq<(Seq<char>, Seq<Seq<char>>)>,
    item: QueryItemView,
)
    requires
        keys_unique(b1),
        keys_unique(b2),
        same_bindings(b1, b2),
    ensures
        plan(schema, b1).contains(item) <==> plan(schema, b2).contains(item),
{
    if b1.len() > 0 {
        assert(has_key(b1, b1[0].0));
        assert(has_key(b2, b1[0].0));
    }
    if b2.len() > 0 {
        assert(has_key(b2, b2[0].0));
        assert(has_key(b1, b2[0].0));
    }
    assert((b1.len() == 0) == (b2.len() == 0));
    if schema.len() > 0 {
        lemma_plan_prefix_members(schema, b1, schema.len(), item);
        lemma_plan_prefix_members(schema, b2, schema.len(), item);
        if plan(schema, b1).contains(item) {
            let j = choose|j: int|
                0 <= j < schema.len() && #[trigger] bucket_at(schema, b1, j).contains(item);
            lemma_bucket_at_same(schema, b1, b2, j, item);
        }
        if plan(schema, b2).contains(item) {
            let j = choose|j: int|
                0 <= j < schema.len() && #[trigger] bucket_at(schema, b2, j).contains(item);
            assert(same_bindings(b2, b1));
            lemma_bucket_at_same(schema, b2, b1, j, item);
        }
    }
}


/// Every event type of a bucket is a type of the schema with the bucket's
/// signature.
pub proof fn lemma_types_with_origin(
    schema: Seq<(Seq<char>, Seq<Seq<char>>)>,
    b: Seq<(Seq<char>, Seq<Seq<char>>)>,
    sig: Seq<Seq<char>>,
    t: Seq<char>,
)
    requires
        types_with(schema, b, sig).contains(t),
    ensures
        exists|i: int|
            0 <= i < schema.len() && (#[trigger] schema[i]).0 == t && signature(schema[i].1, b)
                == sig,
    decreases schema.len(),
{
    if schema.len() > 0 {
        let rest = types_with(schema.drop_last(), b, sig);
        let all = types_with(schema, b, sig);
        let k = choose|k: int| 0 <= k < all.len() && all[k] == t;
        if k < rest.len() {
            assert(rest[k] == t);
            lemma_types_with_origin(schema.drop_last(), b, sig, t);
            let i = choose|i: int|
                0 <= i < schema.drop_last().len() && (#[trigger] schema.drop_last()[i]).0 == t
                    && signature(schema.drop_last()[i].1, b) == sig;
            assert(schema[i] == schema.drop_last()[i]);
        } else {
            assert(schema[schema.len() - 1].0 == t);
        }
    }
}

/// `tags` hold the tag of the field `f` with one of the values bound to it.
pub open spec fn carries_bound_tag(
    tags: Seq<Seq<char>>,
    b: Seq<(Seq<char>, Seq<Seq<char>>)>,
    f: Seq<char>,
) -> bool {
    exists|t: Seq<char>| #[trigger] tags.contains(t) && is_bound_tag(b, f, t)
}

/// `tags` hold, for every field of the signature, the tag of one of the
/// values bound to the field.
pub open spec fn covers(
    tags: Seq<Seq<char>>,
    sig: Seq<Seq<char>>,
    b: Seq<(Seq<char>, Seq<Seq<char>>)>,
) -> bool {
    forall|k: int| 0 <= k < sig.len() ==> carries_bound_tag(tags, b, #[trigger] sig[k])
}

/// The plan matches nothing else: an event that the plan matches is of a type
/// of the event set and carries, for every bound domain-ID field of its type,
/// the tag of one of the values bound to that field.
pub proof fn lemma_plan_matches_only_bound_events(
    schema: Seq<(Seq<char>, Seq<Seq<char>>)>,
    b: Seq<(Seq<char>, Seq<Seq<char>>)>,
    event_type: Seq<char>,
    tags: Seq<Seq<char>>,
)
    requires
        keys_unique(b),
        query_matches(plan(schema, b), event_type, tags),
    ensures
        exists|i: int|
            0 <= i < schema.len() && (#[trigger] schema[i]).0 == event_type && covers(
                tags,
                signature(schema[i].1, b),
                b,
            ),
{
    let items = plan(schema, b);
    let at = choose|at: int|
        0 <= at < items.len() && item_matches(#[trigger] items[at], event_type, tags);
    let item = items[at];
    if schema.len() == 0 {
        if b.len() == 0 {
            assert(item.types.len() == 0);
        }
        assert(false);
    }
    assert(plan_prefix(schema, b, schema.len()).contains(item));
    lemma_plan_prefix_members(schema, b, schema.len(), item);
    let j = choose|j: int|
        0 <= j < schema.len() && #[trigger] bucket_at(schema, b, j).contains(item);
    if !opens_bucket(schema, b, j) {
        assert(bucket_at(schema, b, j).len() == 0);
    }
    let sig = signature(schema[j].1, b);
    let types = types_with(schema, b, sig);
    lemma_signature_exists(schema[j].1, b);
    lemma_bucket_items_characterised(sig, types, b, item);
    lemma_types_with_origin(schema, b, sig, event_type);
    let i = choose|i: int|
        0 <= i < schema.len() && (#[trigger] schema[i]).0 == event_type && signature(
            schema[i].1,
            b,
        ) == sig;
    assert forall|k: int| 0 <= k < sig.len() implies carries_bound_tag(
        tags,
        b,
        #[trigger] sig[k],
    ) by {
        assert(is_bound_tag(b, sig[k], item.tags[k]));
        assert(item.tags.contains(item.tags[k]));
        assert(tags.contains(item.tags[k]));
    }
    assert(covers(tags, signature(schema[i].1, b), b));
}

} // verus!
