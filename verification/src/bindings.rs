//! Lists of bindings of names, in which a later binding of a name hides an
//! earlier one, and the maps they stand for.
use vstd::prelude::*;

verus! {

/// The map that a list of bindings stands for: each name to its last binding.
pub open spec fn bindings<V>(es: Seq<(String, V)>) -> Map<Seq<char>, V>
    decreases es.len(),
{
    if es.len() == 0 {
        Map::empty()
    } else {
        bindings(es.subrange(0, es.len() - 1)).insert(es[es.len() - 1].0@, es[es.len() - 1].1)
    }
}

/// A name bound nowhere at or after position `i` is looked up in the first `i` bindings.
pub proof fn lemma_bindings_lookup<V>(es: Seq<(String, V)>, i: int, k: Seq<char>)
    requires
        0 <= i <= es.len(),
        forall|j: int| i <= j < es.len() ==> (#[trigger] es[j]).0@ != k,
    ensures
        bindings(es).contains_key(k) == bindings(es.subrange(0, i)).contains_key(k),
        bindings(es).contains_key(k) ==> bindings(es)[k] == bindings(es.subrange(0, i))[k],
    decreases es.len(),
{
    if i == es.len() {
        assert(es.subrange(0, i) =~= es);
    } else {
        let es2 = es.subrange(0, es.len() - 1);
        assert(es2.subrange(0, i) =~= es.subrange(0, i));
        assert(es[es.len() - 1].0@ != k);
        assert forall|j: int| i <= j < es2.len() implies (#[trigger] es2[j]).0@ != k by {
            assert(es2[j] == es[j]);
        }
        lemma_bindings_lookup(es2, i, k);
    }
}

/// The names bound in a list of bindings are those of its entries.
pub proof fn lemma_bindings_dom<V>(es: Seq<(String, V)>, k: Seq<char>)
    ensures
        bindings(es).contains_key(k) <==> exists|j: int| 0 <= j < es.len() && (#[trigger] es[j]).0@ == k,
    decreases es.len(),
{
    if es.len() > 0 {
        let es2 = es.subrange(0, es.len() - 1);
        lemma_bindings_dom(es2, k);
        if bindings(es).contains_key(k) {
            if es[es.len() - 1].0@ == k {
                assert(es[es.len() - 1].0@ == k);
            } else {
                let j = choose|j: int| 0 <= j < es2.len() && (#[trigger] es2[j]).0@ == k;
                assert(es[j] == es2[j]);
            }
        }
        if exists|j: int| 0 <= j < es.len() && (#[trigger] es[j]).0@ == k {
            let j = choose|j: int| 0 <= j < es.len() && (#[trigger] es[j]).0@ == k;
            if j < es.len() - 1 {
                assert(es2[j] == es[j]);
            }
        }
    }
}

} // verus!
