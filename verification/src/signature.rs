//! The domain-ID signature of an event type under given bindings: the
//! dimensions of its consistency boundary that a command input binds.

use vstd::prelude::*;
use vstd::string::*;

use crate::domain_id::{has_key, DomainIdBindings};
use crate::text::{
    lemma_text_lt_asymmetric, lemma_text_lt_total, lemma_text_lt_transitive, text_eq, text_less,
    text_lt,
};

verus! {

/// Each text comes strictly before the ones after it.
pub open spec fn strictly_sorted(s: Seq<Seq<char>>) -> bool {
    forall|i: int, j: int| 0 <= i < j < s.len() ==> text_lt(#[trigger] s[i], #[trigger] s[j])
}

/// `sig` holds exactly the names of `fields` that `b` binds, in lexicographic
/// order.
pub open spec fn is_signature(
    sig: Seq<Seq<char>>,
    fields: Seq<Seq<char>>,
    b: Seq<(Seq<char>, Seq<Seq<char>>)>,
) -> bool {
    &&& strictly_sorted(sig)
    &&& forall|f: Seq<char>| #[trigger] sig.contains(f) <==> (fields.contains(f) && has_key(b, f))
}

/// The signature of an event type with domain-ID fields `fields` under the
/// bindings `b`: the bound names among `fields`, sorted lexicographically.
pub open spec fn signature(
    fields: Seq<Seq<char>>,
    b: Seq<(Seq<char>, Seq<Seq<char>>)>,
) -> Seq<Seq<char>> {
    choose|sig: Seq<Seq<char>>| is_signature(sig, fields, b)
}

/// The last element of a strictly sorted sequence comes after every other.
proof fn lemma_last_is_greatest(x: Seq<Seq<char>>, e: Seq<char>)
    requires
        strictly_sorted(x),
        x.contains(e),
    ensures
        e == x.last() || text_lt(e, x.last()),
{
    let i = choose|i: int| 0 <= i < x.len() && x[i] == e;
    if i < x.len() - 1 {
        assert(text_lt(x[i], x[x.len() - 1]));
    }
}

/// A strictly sorted sequence is determined by the set of its elements.
pub proof fn lemma_strictly_sorted_unique(x: Seq<Seq<char>>, y: Seq<Seq<char>>)
    requires
        strictly_sorted(x),
        strictly_sorted(y),
        forall|e: Seq<char>| x.contains(e) <==> y.contains(e),
    ensures
        x == y,
    decreases x.len(),
{
    if x.len() == 0 {
        if y.len() > 0 {
            assert(y.contains(y[0]));
            assert(x.contains(y[0]));
        }
        assert(x =~= y);
    } else {
        assert(x.contains(x.last()));
        assert(y.contains(x.last()));
        assert(y.len() > 0);
        assert(y.contains(y.last()));
        assert(x.contains(y.last()));
        lemma_last_is_greatest(x, y.last());
        lemma_last_is_greatest(y, x.last());
        if x.last() != y.last() {
            lemma_text_lt_asymmetric(x.last(), y.last());
        }
        let xs = x.drop_last();
        let ys = y.drop_last();
        assert forall|e: Seq<char>| xs.contains(e) <==> ys.contains(e) by {
            if xs.contains(e) {
                let i = choose|i: int| 0 <= i < xs.len() && xs[i] == e;
                assert(x[i] == e);
                assert(text_lt(x[i], x[x.len() - 1]));
                lemma_text_lt_asymmetric(e, x.last());
                assert(x.contains(e));
                let j = choose|j: int| 0 <= j < y.len() && y[j] == e;
                assert(ys[j] == e);
            }
            if ys.contains(e) {
                let i = choose|i: int| 0 <= i < ys.len() && ys[i] == e;
                assert(y[i] == e);
                assert(text_lt(y[i], y[y.len() - 1]));
                lemma_text_lt_asymmetric(e, y.last());
                assert(y.contains(e));
                let j = choose|j: int| 0 <= j < x.len() && x[j] == e;
                assert(xs[j] == e);
            }
        }
        assert(strictly_sorted(xs)) by {
            assert forall|i: int, j: int| 0 <= i < j < xs.len() implies text_lt(
                #[trigger] xs[i],
                #[trigger] xs[j],
            ) by {
                assert(text_lt(x[i], x[j]));
            }
        }
        assert(strictly_sorted(ys)) by {
            assert forall|i: int, j: int| 0 <= i < j < ys.len() implies text_lt(
                #[trigger] ys[i],
                #[trigger] ys[j],
            ) by {
                assert(text_lt(y[i], y[j]));
            }
        }
        lemma_strictly_sorted_unique(xs, ys);
        assert(x =~= xs.push(x.last()));
        assert(y =~= ys.push(y.last()));
    }
}

/// Any sequence that meets the description of the signature is the signature.
pub proof fn lemma_signature_is(
    sig: Seq<Seq<char>>,
    fields: Seq<Seq<char>>,
    b: Seq<(Seq<char>, Seq<Seq<char>>)>,
)
    requires
        is_signature(sig, fields, b),
    ensures
        signature(fields, b) == sig,
{
    let other = signature(fields, b);
    assert(is_signature(other, fields, b));
    lemma_strictly_sorted_unique(other, sig);
}

/// Puts `x` at its place in the sorted sequence `sig`, unless it is there
/// already.
pub fn insert_sorted(sig: &mut Vec<String>, x: String)
    requires
        strictly_sorted(old(sig).deep_view()),
    ensures
        strictly_sorted(final(sig).deep_view()),
        forall|e: Seq<char>| #[trigger]
            final(sig).deep_view().contains(e) <==> (old(sig).deep_view().contains(e) || e == x@),
{
    let ghost before = sig.deep_view();
    let mut p: usize = 0;
    while p < sig.len() && text_less(sig[p].as_str(), x.as_str())
        invariant
            p <= sig.len(),
            sig.deep_view() == before,
            forall|k: int| 0 <= k < p ==> text_lt(#[trigger] before[k], x@),
        decreases sig.len() - p,
    {
        p = p + 1;
    }
    if p < sig.len() && text_eq(sig[p].as_str(), x.as_str()) {
        proof {
            assert(before[p as int] == x@);
            assert(before.contains(x@));
        }
        return ;
    }
    sig.insert(p, x);
    proof {
        let after = sig.deep_view();
        assert(after =~= before.insert(p as int, x@));
        assert forall|i: int, j: int| 0 <= i < j < after.len() implies text_lt(
            #[trigger] after[i],
            #[trigger] after[j],
        ) by {
            if j < p {
                assert(text_lt(before[i], before[j]));
            } else if j == p {
                assert(text_lt(before[i], x@));
            } else {
                // after[j] is before[j - 1], at or beyond the insertion point
                assert(!text_lt(before[p as int], x@));
                lemma_text_lt_total(before[p as int], x@);
                assert(text_lt(x@, before[p as int]));
                if j - 1 > p {
                    assert(text_lt(before[p as int], before[j - 1]));
                    lemma_text_lt_transitive(x@, before[p as int], before[j - 1]);
                }
                if i < p {
                    assert(text_lt(before[i], x@));
                    lemma_text_lt_transitive(before[i], x@, before[j - 1]);
                } else if i > p {
                    assert(text_lt(before[i - 1], before[j - 1]));
                }
            }
        }
        assert forall|e: Seq<char>| #[trigger]
            after.contains(e) <==> (before.contains(e) || e == x@) by {
            if after.contains(e) {
                let i = choose|i: int| 0 <= i < after.len() && after[i] == e;
                if i < p {
                    assert(before[i] == e);
                } else if i > p {
                    assert(before[i - 1] == e);
                }
            }
            if before.contains(e) {
                let i = choose|i: int| 0 <= i < before.len() && before[i] == e;
                if i < p {
                    assert(after[i] == e);
                } else {
                    assert(after[i + 1] == e);
                }
            }
            if e == x@ {
                assert(after[p as int] == e);
            }
        }
    }
}

/// Computes the signature of an event type with the given domain-ID fields
/// under the given bindings.
pub fn signature_of(fields: &Vec<String>, bindings: &DomainIdBindings) -> (sig: Vec<String>)
    ensures
        is_signature(sig.deep_view(), fields.deep_view(), bindings@),
        sig.deep_view() == signature(fields.deep_view(), bindings@),
{
    let mut sig: Vec<String> = Vec::new();
    let mut i: usize = 0;
    while i < fields.len()
        invariant
            i <= fields.len(),
            strictly_sorted(sig.deep_view()),
            forall|f: Seq<char>| #[trigger]
                sig.deep_view().contains(f) <==> (fields.deep_view().take(i as int).contains(f)
                    && has_key(bindings@, f)),
        decreases fields.len() - i,
    {
        let ghost seen = fields.deep_view().take(i as int);
        let ghost next = fields.deep_view().take(i + 1);
        proof {
            assert(next =~= seen.push(fields[i as int]@));
            assert forall|f: Seq<char>| next.contains(f) <==> (seen.contains(f) || f
                == fields[i as int]@) by {
                if next.contains(f) {
                    let k = choose|k: int| 0 <= k < next.len() && next[k] == f;
                    if k < i {
                        assert(seen[k] == f);
                    }
                }
                if seen.contains(f) {
                    let k = choose|k: int| 0 <= k < seen.len() && seen[k] == f;
                    assert(next[k] == f);
                }
                if f == fields[i as int]@ {
                    assert(next[i as int] == f);
                }
            }
        }
        if bindings.contains_key(fields[i].as_str()) {
            insert_sorted(&mut sig, fields[i].clone());
        }
        i = i + 1;
    }
    proof {
        assert(fields.deep_view().take(i as int) =~= fields.deep_view());
        lemma_signature_is(sig.deep_view(), fields.deep_view(), bindings@);
    }
    sig
}

/// Decides whether two sequences of texts are equal.
pub fn texts_equal(a: &Vec<String>, b: &Vec<String>) -> (r: bool)
    ensures
        r == (a.deep_view() == b.deep_view()),
{
    if a.len() != b.len() {
        assert(a.deep_view().len() != b.deep_view().len());
        return false;
    }
    let mut i: usize = 0;
    while i < a.len()
        invariant
            i <= a.len(),
            a.len() == b.len(),
            forall|k: int| 0 <= k < i ==> a.deep_view()[k] == b.deep_view()[k],
        decreases a.len() - i,
    {
        if !text_eq(a[i].as_str(), b[i].as_str()) {
            assert(a.deep_view()[i as int] != b.deep_view()[i as int]);
            return false;
        }
        i = i + 1;
    }
    assert(a.deep_view() =~= b.deep_view());
    true
}

/// Decides whether a sequence of texts holds a given one.
pub fn texts_contain(a: &Vec<String>, x: &str) -> (r: bool)
    ensures
        r == a.deep_view().contains(x@),
{
    let mut i: usize = 0;
    while i < a.len()
        invariant
            i <= a.len(),
            forall|k: int| 0 <= k < i ==> a.deep_view()[k] != x@,
        decreases a.len() - i,
    {
        if text_eq(a[i].as_str(), x) {
            assert(a.deep_view()[i as int] == x@);
            return true;
        }
        i = i + 1;
    }
    false
}


/// A sorted sequence can take one more element at its place.
proof fn lemma_insert_exists(s: Seq<Seq<char>>, x: Seq<char>) -> (t: Seq<Seq<char>>)
    requires
        strictly_sorted(s),
    ensures
        strictly_sorted(t),
        forall|e: Seq<char>| #[trigger] t.contains(e) <==> (s.contains(e) || e == x),
    decreases s.len(),
{
    if s.len() == 0 {
        let t = seq![x];
        assert(t[0] == x);
        t
    } else if s.last() == x {
        assert(s.contains(x));
        s
    } else if text_lt(s.last(), x) {
        let t = s.push(x);
        assert forall|i: int, j: int| 0 <= i < j < t.len() implies text_lt(
            #[trigger] t[i],
            #[trigger] t[j],
        ) by {
            if j < s.len() {
                assert(text_lt(s[i], s[j]));
            } else if i < s.len() - 1 {
                assert(text_lt(s[i], s[s.len() - 1]));
                lemma_text_lt_transitive(s[i], s.last(), x);
            }
        }
        assert forall|e: Seq<char>| #[trigger] t.contains(e) <==> (s.contains(e) || e == x) by {
            if t.contains(e) {
                let i = choose|i: int| 0 <= i < t.len() && t[i] == e;
                if i < s.len() {
                    assert(s[i] == e);
                }
            }
            if s.contains(e) {
                let i = choose|i: int| 0 <= i < s.len() && s[i] == e;
                assert(t[i] == e);
            }
            if e == x {
                assert(t[s.len() as int] == e);
            }
        }
        t
    } else {
        lemma_text_lt_total(s.last(), x);
        let front = s.drop_last();
        assert(strictly_sorted(front)) by {
            assert forall|i: int, j: int| 0 <= i < j < front.len() implies text_lt(
                #[trigger] front[i],
                #[trigger] front[j],
            ) by {
                assert(text_lt(s[i], s[j]));
            }
        }
        let u = lemma_insert_exists(front, x);
        let t = u.push(s.last());
        assert forall|i: int, j: int| 0 <= i < j < t.len() implies text_lt(
            #[trigger] t[i],
            #[trigger] t[j],
        ) by {
            if j < u.len() {
                assert(text_lt(u[i], u[j]));
            } else {
                assert(u.contains(u[i]));
                if u[i] != x {
                    assert(front.contains(u[i]));
                    let k = choose|k: int| 0 <= k < front.len() && front[k] == u[i];
                    assert(text_lt(s[k], s[s.len() - 1]));
                }
            }
        }
        assert forall|e: Seq<char>| #[trigger] t.contains(e) <==> (s.contains(e) || e == x) by {
            if t.contains(e) {
                let i = choose|i: int| 0 <= i < t.len() && t[i] == e;
                if i < u.len() {
                    assert(u.contains(e));
                    if e != x {
                        assert(front.contains(e));
                        let k = choose|k: int| 0 <= k < front.len() && front[k] == e;
                        assert(s[k] == e);
                    }
                } else {
                    assert(s[s.len() - 1] == e);
                }
            }
            if s.contains(e) {
                let i = choose|i: int| 0 <= i < s.len() && s[i] == e;
                if i < s.len() - 1 {
                    assert(front[i] == e);
                    assert(front.contains(e));
                    assert(u.contains(e));
                    let k = choose|k: int| 0 <= k < u.len() && u[k] == e;
                    assert(t[k] == e);
                } else {
                    assert(t[u.len() as int] == e);
                }
            }
            if e == x {
                assert(u.contains(x));
                let k = choose|k: int| 0 <= k < u.len() && u[k] == x;
                assert(t[k] == e);
            }
        }
        t
    }
}

/// Every list of fields has a signature under every bindings value: the
/// description of the signature is met by exactly one sequence.
pub proof fn lemma_signature_exists(fields: Seq<Seq<char>>, b: Seq<(Seq<char>, Seq<Seq<char>>)>)
    ensures
        is_signature(signature(fields, b), fields, b),
    decreases fields.len(),
{
    if fields.len() == 0 {
        let empty = Seq::<Seq<char>>::empty();
        assert(is_signature(empty, fields, b));
    } else {
        let front = fields.drop_last();
        lemma_signature_exists(front, b);
        let s = signature(front, b);
        let x = fields.last();
        assert forall|f: Seq<char>| fields.contains(f) <==> (front.contains(f) || f == x) by {
            if fields.contains(f) {
                let i = choose|i: int| 0 <= i < fields.len() && fields[i] == f;
                if i < fields.len() - 1 {
                    assert(front[i] == f);
                }
            }
            if front.contains(f) {
                let i = choose|i: int| 0 <= i < front.len() && front[i] == f;
                assert(fields[i] == f);
            }
            if f == x {
                assert(fields[fields.len() - 1] == f);
            }
        }
        if has_key(b, x) {
            let t = lemma_insert_exists(s, x);
            assert(is_signature(t, fields, b));
        } else {
            assert(is_signature(s, fields, b));
        }
    }
}

} // verus!
