//! Stable sorting of keyed items by the order of `str`, as `sort_by_key`
//! with a `String` key does it.

use vstd::multiset::Multiset;
use vstd::prelude::*;

use crate::text::{lex_lt, lemma_lex_lt_total, lemma_lex_lt_transitive, str_lt};

verus! {

/// `x` placed before the first item of `s` whose key is not below its own.
pub open spec fn insert_keyed<T>(x: (Seq<char>, T), s: Seq<(Seq<char>, T)>) -> Seq<(Seq<char>, T)>
    decreases s.len(),
{
    if s.len() == 0 {
        seq![x]
    } else if !lex_lt(s[0].0, x.0) {
        seq![x] + s
    } else {
        seq![s[0]] + insert_keyed(x, s.drop_first())
    }
}

/// The stable sort of `s` by key: items with equal keys keep their order.
pub open spec fn sorted_by_key<T>(s: Seq<(Seq<char>, T)>) -> Seq<(Seq<char>, T)>
    decreases s.len(),
{
    if s.len() == 0 {
        s
    } else {
        insert_keyed(s[0], sorted_by_key(s.drop_first()))
    }
}

/// Whether the keys of `s` never decrease.
pub open spec fn keys_ascending<T>(s: Seq<(Seq<char>, T)>) -> bool {
    forall|i: int, j: int| 0 <= i < j < s.len() ==> !lex_lt(#[trigger] s[j].0, #[trigger] s[i].0)
}

proof fn lemma_insert_at<T>(x: (Seq<char>, T), s: Seq<(Seq<char>, T)>, j: int)
    requires
        0 <= j <= s.len(),
        forall|k: int| 0 <= k < j ==> lex_lt(#[trigger] s[k].0, x.0),
        j == s.len() || !lex_lt(s[j].0, x.0),
    ensures
        insert_keyed(x, s) == s.insert(j, x),
    decreases j,
{
    if j == 0 {
        assert(insert_keyed(x, s) =~= s.insert(0, x));
    } else {
        let t = s.drop_first();
        assert forall|k: int| 0 <= k < j - 1 implies lex_lt(#[trigger] t[k].0, x.0) by {
            assert(t[k] == s[k + 1]);
        }
        if j < s.len() {
            assert(t[j - 1] == s[j]);
        }
        lemma_insert_at(x, t, j - 1);
        assert(insert_keyed(x, s) =~= s.insert(j, x));
    }
}

/// The items with their keys taken as character sequences.
pub open spec fn keyed<T>(items: Seq<(String, T)>) -> Seq<(Seq<char>, T)> {
    items.map_values(|p: (String, T)| (p.0@, p.1))
}

/// Sorts `items` by key, stably, as `slice::sort_by_key` does with `String`
/// keys.
pub fn sort_by_key_string<T>(items: Vec<(String, T)>) -> (r: Vec<(String, T)>)
    ensures
        keyed(r@) == sorted_by_key(keyed(items@)),
{
    let ghost orig = items@;
    let mut items = items;
    let mut r: Vec<(String, T)> = Vec::new();
    assert(keyed(orig).skip(orig.len() as int) =~= Seq::<(Seq<char>, T)>::empty());
    assert(keyed(r@) =~= Seq::<(Seq<char>, T)>::empty());
    while items.len() > 0
        invariant
            items@ == orig.take(items.len() as int),
            items.len() <= orig.len(),
            keyed(r@) == sorted_by_key(keyed(orig).skip(items.len() as int)),
        decreases items.len(),
    {
        let ghost n = items.len();
        let x = items.pop().unwrap();
        assert(x == orig[n - 1]);
        assert(items@ =~= orig.take(n - 1));
        assert(keyed(orig).skip(n - 1).drop_first() =~= keyed(orig).skip(n as int));
        assert(keyed(orig).skip(n - 1)[0] == (x.0@, x.1));
        let mut j: usize = 0;
        while j < r.len() && str_lt(r[j].0.as_str(), x.0.as_str())
            invariant
                j <= r.len(),
                forall|k: int| 0 <= k < j ==> lex_lt(#[trigger] keyed(r@)[k].0, x.0@),
            decreases r.len() - j,
        {
            assert(keyed(r@)[j as int].0 == r@[j as int].0@);
            j = j + 1;
        }
        proof {
            if j < r.len() {
                assert(keyed(r@)[j as int].0 == r@[j as int].0@);
            }
            lemma_insert_at((x.0@, x.1), keyed(r@), j as int);
        }
        let ghost before = r@;
        r.insert(j, x);
        assert(keyed(r@) =~= keyed(before).insert(j as int, (x.0@, x.1)));
    }
    assert(keyed(orig).skip(0) =~= keyed(orig));
    r
}

/// Sorting does not look at anything but the keys: changing the items
/// without changing their keys commutes with sorting.
pub proof fn lemma_sort_map<T, U>(s: Seq<(Seq<char>, T)>, f: spec_fn(T) -> U)
    ensures
        sorted_by_key(s).map_values(|p: (Seq<char>, T)| (p.0, f(p.1))) == sorted_by_key(
            s.map_values(|p: (Seq<char>, T)| (p.0, f(p.1))),
        ),
    decreases s.len(),
{
    let g = |p: (Seq<char>, T)| (p.0, f(p.1));
    if s.len() > 0 {
        lemma_sort_map(s.drop_first(), f);
        assert(s.map_values(g).drop_first() =~= s.drop_first().map_values(g));
        lemma_insert_map(s[0], sorted_by_key(s.drop_first()), f);
    } else {
        assert(sorted_by_key(s).map_values(g) =~= sorted_by_key(s.map_values(g)));
    }
}

proof fn lemma_insert_map<T, U>(x: (Seq<char>, T), s: Seq<(Seq<char>, T)>, f: spec_fn(T) -> U)
    ensures
        insert_keyed(x, s).map_values(|p: (Seq<char>, T)| (p.0, f(p.1))) == insert_keyed(
            (x.0, f(x.1)),
            s.map_values(|p: (Seq<char>, T)| (p.0, f(p.1))),
        ),
    decreases s.len(),
{
    let g = |p: (Seq<char>, T)| (p.0, f(p.1));
    if s.len() == 0 {
        assert(insert_keyed(x, s).map_values(g) =~= seq![g(x)]);
    } else if !lex_lt(s[0].0, x.0) {
        assert(insert_keyed(x, s).map_values(g) =~= seq![g(x)] + s.map_values(g));
    } else {
        lemma_insert_map(x, s.drop_first(), f);
        assert(s.map_values(g).drop_first() =~= s.drop_first().map_values(g));
        assert(insert_keyed(x, s).map_values(g) =~= seq![g(s[0])] + insert_keyed(
            x,
            s.drop_first(),
        ).map_values(g));
    }
}

proof fn lemma_insert_keyed_multiset<T>(x: (Seq<char>, T), s: Seq<(Seq<char>, T)>)
    ensures
        insert_keyed(x, s).to_multiset() == s.to_multiset().insert(x),
    decreases s.len(),
{
    broadcast use vstd::seq_lib::group_to_multiset_ensures;

    if s.len() == 0 {
        assert(insert_keyed(x, s) =~= seq![x]);
        assert(seq![x] =~= s.push(x));
    } else if !lex_lt(s[0].0, x.0) {
        vstd::seq_lib::lemma_multiset_commutative(seq![x], s);
        assert(seq![x].to_multiset() =~= Multiset::empty().insert(x)) by {
            assert(seq![x] =~= Seq::<(Seq<char>, T)>::empty().push(x));
        }
    } else {
        let t = s.drop_first();
        lemma_insert_keyed_multiset(x, t);
        vstd::seq_lib::lemma_multiset_commutative(seq![s[0]], insert_keyed(x, t));
        vstd::seq_lib::lemma_multiset_commutative(seq![s[0]], t);
        assert(seq![s[0]] + t =~= s);
        assert(seq![s[0]].to_multiset() =~= Multiset::empty().insert(s[0])) by {
            assert(seq![s[0]] =~= Seq::<(Seq<char>, T)>::empty().push(s[0]));
        }
        assert(insert_keyed(x, s).to_multiset() =~= s.to_multiset().insert(x));
    }
}

/// Sorting keeps every item, each as often as it occurs.
pub proof fn lemma_sort_is_permutation<T>(s: Seq<(Seq<char>, T)>)
    ensures
        sorted_by_key(s).to_multiset() == s.to_multiset(),
    decreases s.len(),
{
    broadcast use vstd::seq_lib::group_to_multiset_ensures;

    if s.len() > 0 {
        let t = s.drop_first();
        lemma_sort_is_permutation(t);
        lemma_insert_keyed_multiset(s[0], sorted_by_key(t));
        vstd::seq_lib::lemma_multiset_commutative(seq![s[0]], t);
        assert(seq![s[0]] + t =~= s);
        assert(seq![s[0]].to_multiset() =~= Multiset::empty().insert(s[0])) by {
            assert(seq![s[0]] =~= Seq::<(Seq<char>, T)>::empty().push(s[0]));
        }
        assert(sorted_by_key(s).to_multiset() =~= s.to_multiset());
    }
}

proof fn lemma_insert_keyed_ascending<T>(x: (Seq<char>, T), s: Seq<(Seq<char>, T)>)
    requires
        keys_ascending(s),
    ensures
        keys_ascending(insert_keyed(x, s)),
        insert_keyed(x, s).len() == s.len() + 1,
        forall|i: int|
            0 <= i < insert_keyed(x, s).len() ==> (#[trigger] insert_keyed(x, s)[i] == x || s.contains(
                insert_keyed(x, s)[i],
            )),
    decreases s.len(),
{
    let r = insert_keyed(x, s);
    if s.len() == 0 {
    } else if !lex_lt(s[0].0, x.0) {
        assert forall|i: int, j: int| 0 <= i < j < r.len() implies !lex_lt(
            #[trigger] r[j].0,
            #[trigger] r[i].0,
        ) by {
            if i == 0 {
                // r[j] = s[j - 1], and s[0] is not below x
                lemma_lex_lt_total(s[0].0, x.0);
                if j - 1 > 0 {
                    assert(!lex_lt(s[j - 1].0, s[0].0));
                    if lex_lt(s[j - 1].0, x.0) {
                        lemma_lex_lt_total(s[j - 1].0, s[0].0);
                        if s[j - 1].0 == s[0].0 {
                        } else {
                            lemma_lex_lt_transitive(s[0].0, s[j - 1].0, x.0);
                        }
                    }
                }
            } else {
                assert(r[i] == s[i - 1]);
                assert(r[j] == s[j - 1]);
            }
        }
        assert forall|i: int| 0 <= i < r.len() implies (#[trigger] r[i] == x || s.contains(r[i])) by {
            if i > 0 {
                assert(r[i] == s[i - 1]);
            }
        }
    } else {
        let t = s.drop_first();
        assert forall|i: int, j: int| 0 <= i < j < t.len() implies !lex_lt(
            #[trigger] t[j].0,
            #[trigger] t[i].0,
        ) by {
            assert(t[i] == s[i + 1]);
            assert(t[j] == s[j + 1]);
        }
        lemma_insert_keyed_ascending(x, t);
        let u = insert_keyed(x, t);
        assert(r == seq![s[0]] + u);
        assert forall|i: int| 0 <= i < r.len() implies (#[trigger] r[i] == x || s.contains(r[i])) by {
            if i > 0 {
                assert(r[i] == u[i - 1]);
                if u[i - 1] != x {
                    let k = choose|k: int| 0 <= k < t.len() && t[k] == u[i - 1];
                    assert(s[k + 1] == u[i - 1]);
                }
            } else {
                assert(s[0] == r[0]);
            }
        }
        assert forall|i: int, j: int| 0 <= i < j < r.len() implies !lex_lt(
            #[trigger] r[j].0,
            #[trigger] r[i].0,
        ) by {
            if i == 0 {
                assert(r[j] == u[j - 1]);
                assert(u[j - 1] == x || t.contains(u[j - 1]));
                if u[j - 1] == x {
                    lemma_lex_lt_total(s[0].0, x.0);
                } else {
                    let k = choose|k: int| 0 <= k < t.len() && t[k] == u[j - 1];
                    assert(s[k + 1] == u[j - 1]);
                }
            } else {
                assert(r[i] == u[i - 1]);
                assert(r[j] == u[j - 1]);
            }
        }
    }
}

/// The sorted sequence is in ascending key order.
pub proof fn lemma_sort_is_ascending<T>(s: Seq<(Seq<char>, T)>)
    ensures
        keys_ascending(sorted_by_key(s)),
        sorted_by_key(s).len() == s.len(),
    decreases s.len(),
{
    if s.len() > 0 {
        lemma_sort_is_ascending(s.drop_first());
        lemma_insert_keyed_ascending(s[0], sorted_by_key(s.drop_first()));
    }
}

} // verus!
