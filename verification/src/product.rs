//! Cartesian products of candidate values: one choice from each group.

use vstd::prelude::*;
use vstd::string::*;

verus! {

/// The combination `c`, continued by each of `values` in turn.
pub open spec fn extend_one(c: Seq<Seq<char>>, values: Seq<Seq<char>>) -> Seq<Seq<Seq<char>>> {
    Seq::new(values.len(), |j: int| c.push(values[j]))
}

/// Every combination of `combos`, continued by each of `values`: the
/// continuations of one combination stay together, in the order of `values`.
pub open spec fn extend_all(
    combos: Seq<Seq<Seq<char>>>,
    values: Seq<Seq<char>>,
) -> Seq<Seq<Seq<char>>>
    decreases combos.len(),
{
    if combos.len() == 0 {
        Seq::empty()
    } else {
        extend_all(combos.drop_last(), values) + extend_one(combos.last(), values)
    }
}

/// The Cartesian product of `groups`: every way of choosing one value from
/// each group, the choice from the first group varying slowest.
pub open spec fn product(groups: Seq<Seq<Seq<char>>>) -> Seq<Seq<Seq<char>>>
    decreases groups.len(),
{
    if groups.len() == 0 {
        seq![Seq::empty()]
    } else {
        extend_all(product(groups.drop_last()), groups.last())
    }
}

/// `choice` takes one value from each group.
pub open spec fn chooses_from(choice: Seq<Seq<char>>, groups: Seq<Seq<Seq<char>>>) -> bool {
    &&& choice.len() == groups.len()
    &&& forall|i: int| 0 <= i < groups.len() ==> (#[trigger] groups[i]).contains(choice[i])
}

/// Continuing a member by a value gives a member of the extension.
pub proof fn lemma_extend_all_contains(
    combos: Seq<Seq<Seq<char>>>,
    values: Seq<Seq<char>>,
    c: Seq<Seq<char>>,
    v: Seq<char>,
)
    requires
        combos.contains(c),
        values.contains(v),
    ensures
        extend_all(combos, values).contains(c.push(v)),
    decreases combos.len(),
{
    let rest = extend_all(combos.drop_last(), values);
    let tail = extend_one(combos.last(), values);
    if combos.last() == c {
        let j = choose|j: int| 0 <= j < values.len() && values[j] == v;
        assert(tail[j] == c.push(v));
        assert((rest + tail)[rest.len() + j] == c.push(v));
    } else {
        let i = choose|i: int| 0 <= i < combos.len() && combos[i] == c;
        assert(combos.drop_last()[i] == c);
        lemma_extend_all_contains(combos.drop_last(), values, c, v);
        let k = choose|k: int| 0 <= k < rest.len() && rest[k] == c.push(v);
        assert((rest + tail)[k] == c.push(v));
    }
}

/// Every member of the extension continues a member by a value.
pub proof fn lemma_extend_all_members(
    combos: Seq<Seq<Seq<char>>>,
    values: Seq<Seq<char>>,
    x: Seq<Seq<char>>,
)
    requires
        extend_all(combos, values).contains(x),
    ensures
        x.len() > 0,
        combos.contains(x.drop_last()),
        values.contains(x.last()),
    decreases combos.len(),
{
    if combos.len() > 0 {
        let rest = extend_all(combos.drop_last(), values);
        let tail = extend_one(combos.last(), values);
        let k = choose|k: int| 0 <= k < (rest + tail).len() && (rest + tail)[k] == x;
        if k < rest.len() {
            assert(rest[k] == x);
            lemma_extend_all_members(combos.drop_last(), values, x);
            let i = choose|i: int|
                0 <= i < combos.drop_last().len() && combos.drop_last()[i] == x.drop_last();
            assert(combos[i] == x.drop_last());
        } else {
            let j = k - rest.len();
            assert(tail[j] == x);
            assert(x.drop_last() =~= combos.last());
            assert(combos[combos.len() - 1] == x.drop_last());
            assert(values[j] == x.last());
        }
    }
}

/// The product holds exactly the sequences that take one value from each
/// group.
pub proof fn lemma_product_characterised(groups: Seq<Seq<Seq<char>>>, choice: Seq<Seq<char>>)
    ensures
        product(groups).contains(choice) <==> chooses_from(choice, groups),
    decreases groups.len(),
{
    if groups.len() == 0 {
        assert(product(groups)[0] == Seq::<Seq<char>>::empty());
        if chooses_from(choice, groups) {
            assert(choice =~= Seq::<Seq<char>>::empty());
        }
        if product(groups).contains(choice) {
            let k = choose|k: int| 0 <= k < product(groups).len() && product(groups)[k] == choice;
            assert(choice == Seq::<Seq<char>>::empty());
        }
    } else {
        let shorter = groups.drop_last();
        if product(groups).contains(choice) {
            lemma_extend_all_members(product(shorter), groups.last(), choice);
            lemma_product_characterised(shorter, choice.drop_last());
            assert forall|i: int| 0 <= i < groups.len() implies (#[trigger] groups[i]).contains(
                choice[i],
            ) by {
                if i < groups.len() - 1 {
                    assert(shorter[i].contains(choice.drop_last()[i]));
                }
            }
        }
        if chooses_from(choice, groups) {
            assert forall|i: int| 0 <= i < shorter.len() implies (#[trigger] shorter[i]).contains(
                choice.drop_last()[i],
            ) by {
                assert(groups[i].contains(choice[i]));
            }
            lemma_product_characterised(shorter, choice.drop_last());
            assert(groups[groups.len() - 1].contains(choice[groups.len() - 1]));
            lemma_extend_all_contains(
                product(shorter),
                groups.last(),
                choice.drop_last(),
                choice.last(),
            );
            assert(choice =~= choice.drop_last().push(choice.last()));
        }
    }
}

/// A copy of a sequence of texts.
pub fn clone_texts(v: &Vec<String>) -> (r: Vec<String>)
    ensures
        r.deep_view() == v.deep_view(),
{
    let mut r: Vec<String> = Vec::new();
    let mut i: usize = 0;
    while i < v.len()
        invariant
            i <= v.len(),
            r.deep_view() == v.deep_view().take(i as int),
        decreases v.len() - i,
    {
        let ghost before = r.deep_view();
        let item = v[i].clone();
        assert(item@ == v.deep_view()[i as int]);
        r.push(item);
        assert(r.deep_view() =~= before.push(item@));
        assert(r.deep_view() =~= v.deep_view().take(i + 1));
        i = i + 1;
    }
    assert(v.deep_view().take(i as int) =~= v.deep_view());
    r
}

/// Continues every combination by each of the values.
pub fn extend_combinations(combos: &Vec<Vec<String>>, values: &Vec<String>) -> (out: Vec<
    Vec<String>,
>)
    ensures
        out.deep_view() == extend_all(combos.deep_view(), values.deep_view()),
{
    let mut out: Vec<Vec<String>> = Vec::new();
    let mut ci: usize = 0;
    assert(out.deep_view() =~= extend_all(combos.deep_view().take(0), values.deep_view()));
    while ci < combos.len()
        invariant
            ci <= combos.len(),
            out.deep_view() == extend_all(combos.deep_view().take(ci as int), values.deep_view()),
        decreases combos.len() - ci,
    {
        let ghost done = out.deep_view();
        let ghost combo = combos.deep_view()[ci as int];
        let mut vi: usize = 0;
        assert(out.deep_view() =~= done + extend_one(combo, values.deep_view()).take(0));
        while vi < values.len()
            invariant
                vi <= values.len(),
                ci < combos.len(),
                combo == combos.deep_view()[ci as int],
                out.deep_view() == done + extend_one(combo, values.deep_view()).take(vi as int),
            decreases values.len() - vi,
        {
            let ghost before = out.deep_view();
            let mut next = clone_texts(&combos[ci]);
            assert(next.deep_view() == combo);
            let value = values[vi].clone();
            assert(value@ == values.deep_view()[vi as int]);
            next.push(value);
            assert(next.deep_view() =~= combo.push(values.deep_view()[vi as int]));
            out.push(next);
            assert(out.deep_view() =~= before.push(next.deep_view()));
            assert(out.deep_view() =~= done + extend_one(combo, values.deep_view()).take(vi + 1));
            vi = vi + 1;
        }
        proof {
            let upto = combos.deep_view().take(ci + 1);
            assert(extend_one(combo, values.deep_view()).take(vi as int) =~= extend_one(
                combo,
                values.deep_view(),
            ));
            assert(upto.drop_last() =~= combos.deep_view().take(ci as int));
            assert(upto.last() == combo);
        }
        ci = ci + 1;
    }
    assert(combos.deep_view().take(ci as int) =~= combos.deep_view());
    out
}

} // verus!
