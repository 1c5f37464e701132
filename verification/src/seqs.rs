//! Searching a sequence for the first element with a property.

use vstd::prelude::*;

verus! {

/// The least index at or after `from` whose element satisfies `p`, if there is one.
pub open spec fn first_index<A>(s: Seq<A>, p: spec_fn(A) -> bool, from: int) -> Option<int>
    decreases s.len() - from,
{
    if from < 0 || from >= s.len() {
        None
    } else if p(s[from]) {
        Some(from)
    } else {
        first_index(s, p, from + 1)
    }
}

/// `first_index` finds an element with the property, nothing before it has the
/// property, and it fails only where no element has it.
pub proof fn lemma_first_index<A>(s: Seq<A>, p: spec_fn(A) -> bool, from: int)
    requires
        0 <= from,
    ensures
        match first_index(s, p, from) {
            Some(i) => {
                &&& from <= i < s.len()
                &&& p(s[i])
                &&& forall|j: int| from <= j < i ==> !p(#[trigger] s[j])
            },
            None => forall|j: int| from <= j < s.len() ==> !p(#[trigger] s[j]),
        },
    decreases s.len() - from,
{
    if from < s.len() && !p(s[from]) {
        lemma_first_index(s, p, from + 1);
    }
}

/// An index whose element has the property, with none before it, is the one
/// that `first_index` finds.
pub proof fn lemma_first_index_is<A>(s: Seq<A>, p: spec_fn(A) -> bool, i: int)
    requires
        0 <= i < s.len(),
        p(s[i]),
        forall|j: int| 0 <= j < i ==> !p(#[trigger] s[j]),
    ensures
        first_index(s, p, 0) == Some(i),
{
    lemma_first_index(s, p, 0);
}

/// Where no element has the property, `first_index` finds none.
pub proof fn lemma_first_index_none<A>(s: Seq<A>, p: spec_fn(A) -> bool)
    requires
        forall|j: int| 0 <= j < s.len() ==> !p(#[trigger] s[j]),
    ensures
        first_index(s, p, 0) == None::<int>,
{
    lemma_first_index(s, p, 0);
}

} // verus!
