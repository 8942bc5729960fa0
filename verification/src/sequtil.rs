//! Small general lemmas about sequences that several stages share.

use vstd::prelude::*;

verus! {

/// Pushing onto a sequence keeps every element it already held, and
/// makes the new element an element.
pub proof fn lemma_push_preserves_contains<T>(s: Seq<T>, x: T)
    ensures
        forall|y: T| s.contains(y) ==> #[trigger] s.push(x).contains(y),
        s.push(x).contains(x),
{
    assert forall|y: T| s.contains(y) implies s.push(x).contains(y) by {
        let k = choose|k: int| 0 <= k < s.len() && s[k] == y;
        assert(s.push(x)[k] == y);
    }
    assert(s.push(x)[s.len() as int] == x);
}

} // verus!
