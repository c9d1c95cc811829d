//! Searching lists.

use vstd::prelude::*;

verus! {

/// The place of the first item that satisfies `p`.
pub open spec fn find<A>(s: Seq<A>, p: spec_fn(A) -> bool) -> Option<int>
    decreases s.len(),
{
    if s.len() == 0 {
        None
    } else {
        match find(s.drop_last(), p) {
            Some(i) => Some(i),
            None => if p(s.last()) {
                Some(s.len() - 1)
            } else {
                None
            },
        }
    }
}

pub proof fn lemma_find<A>(s: Seq<A>, p: spec_fn(A) -> bool)
    ensures
        match find(s, p) {
            Some(i) => {
                &&& 0 <= i < s.len()
                &&& p(s[i])
                &&& forall|j: int| 0 <= j < i ==> !p(#[trigger] s[j])
            },
            None => forall|j: int| 0 <= j < s.len() ==> !p(#[trigger] s[j]),
        },
    decreases s.len(),
{
    if s.len() > 0 {
        let rest = s.drop_last();
        lemma_find(rest, p);
        match find(rest, p) {
            Some(i) => {
                assert forall|j: int| 0 <= j < i implies !p(#[trigger] s[j]) by {
                    assert(rest[j] == s[j]);
                }
            },
            None => {
                assert forall|j: int| 0 <= j < s.len() - 1 implies !p(#[trigger] s[j]) by {
                    assert(rest[j] == s[j]);
                }
            },
        }
    }
}

/// An item that satisfies `p`, with none before it, is the one that is found.
pub proof fn lemma_found<A>(s: Seq<A>, p: spec_fn(A) -> bool, i: int)
    requires
        0 <= i < s.len(),
        p(s[i]),
        forall|j: int| 0 <= j < i ==> !p(#[trigger] s[j]),
    ensures
        find(s, p) == Some(i),
{
    lemma_find(s, p);
}

pub proof fn lemma_not_found<A>(s: Seq<A>, p: spec_fn(A) -> bool)
    requires
        forall|j: int| 0 <= j < s.len() ==> !p(#[trigger] s[j]),
    ensures
        find(s, p) is None,
{
    lemma_find(s, p);
}

} // verus!
