//! The configured Attic servers, listed by name.

use vstd::prelude::*;

use crate::sorting::{keyed, keys_ascending, lemma_sort_is_ascending, lemma_sort_is_permutation, sort_by_key_string, sorted_by_key};

verus! {

/// The names each paired with nothing, for sorting by name.
pub open spec fn named(names: Seq<Seq<char>>) -> Seq<(Seq<char>, ())> {
    names.map_values(|n: Seq<char>| (n, ()))
}

/// The names in ascending order of `str`'s `Ord`.
pub open spec fn sorted_names(names: Seq<Seq<char>>) -> Seq<Seq<char>> {
    sorted_by_key(named(names)).map_values(|p: (Seq<char>, ())| p.0)
}

/// The server names in the order in which they are listed.
pub fn sorted_server_names(names: Vec<String>) -> (r: Vec<String>)
    ensures
        r.deep_view() == sorted_names(names.deep_view()),
{
    let ghost given = names.deep_view();
    let ghost n = given.len();
    let mut names = names;
    let mut ordered: Vec<(String, ())> = Vec::new();
    while names.len() > 0
        invariant
            n == given.len(),
            ordered@.len() + names@.len() == n,
            forall|k: int| 0 <= k < names@.len() ==> (#[trigger] names@[k])@ == given[ordered@.len() + k],
            forall|k: int| 0 <= k < ordered@.len() ==> (#[trigger] ordered@[k]).0@ == given[k],
        decreases names.len(),
    {
        let ghost before = names@;
        let name = names.remove(0);
        assert(name@ == given[ordered@.len() as int]);
        assert forall|k: int| 0 <= k < names@.len() implies (#[trigger] names@[k])@ == given[ordered@.len()
            + 1 + k] by {
            assert(names@[k] == before[k + 1]);
        }
        ordered.push((name, ()));
    }
    assert(keyed(ordered@) =~= named(given));
    let sorted = sort_by_key_string(ordered);
    let ghost sk = keyed(sorted@);
    proof {
        lemma_sort_is_ascending(named(given));
    }
    let mut sorted = sorted;
    let mut r: Vec<String> = Vec::new();
    while sorted.len() > 0
        invariant
            sk.len() == n,
            r@.len() + sorted@.len() == n,
            forall|k: int| 0 <= k < sorted@.len() ==> (#[trigger] sorted@[k]).0@ == sk[r@.len() + k].0,
            forall|k: int| 0 <= k < r@.len() ==> (#[trigger] r@[k])@ == sk[k].0,
        decreases sorted.len(),
    {
        let ghost before = sorted@;
        let (name, _) = sorted.remove(0);
        assert(name@ == sk[r@.len() as int].0);
        assert forall|k: int| 0 <= k < sorted@.len() implies (#[trigger] sorted@[k]).0@ == sk[r@.len()
            + 1 + k].0 by {
            assert(sorted@[k] == before[k + 1]);
        }
        r.push(name);
    }
    assert(r.deep_view() =~= sorted_names(given));
    r
}

/// Listing puts the names in ascending order and keeps each name as often
/// as it was given.
pub proof fn lemma_server_names_ordered(names: Seq<Seq<char>>)
    ensures
        keys_ascending(sorted_by_key(named(names))),
        sorted_by_key(named(names)).to_multiset() == named(names).to_multiset(),
        sorted_names(names).len() == names.len(),
{
    lemma_sort_is_permutation(named(names));
    lemma_sort_is_ascending(named(names));
}

} // verus!
