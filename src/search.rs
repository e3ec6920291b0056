//! Leftmost search over sequences: the specification used by every scanner
//! of the crate.

use vstd::prelude::*;

verus! {

/// The smallest index `j` with `i <= j <= s.len()` at which `p(s, j)` holds.
pub open spec fn first_from<A>(s: Seq<A>, i: int, p: spec_fn(Seq<A>, int) -> bool) -> Option<int>
    decreases s.len() + 1 - i,
{
    if i > s.len() || i < 0 {
        None
    } else if p(s, i) {
        Some(i)
    } else {
        first_from(s, i + 1, p)
    }
}

/// `pat` occurs in `s` at index `i`.
pub open spec fn occurs_at<A>(s: Seq<A>, pat: Seq<A>, i: int) -> bool {
    0 <= i && i + pat.len() <= s.len() && s.subrange(i, i + pat.len()) == pat
}

/// A witness that holds with nothing before it (from `i` on) is what the
/// search returns.
pub proof fn lemma_first_from_found<A>(s: Seq<A>, i: int, p: spec_fn(Seq<A>, int) -> bool, j: int)
    requires
        0 <= i <= j <= s.len(),
        p(s, j),
        forall|k: int| i <= k < j ==> !#[trigger] p(s, k),
    ensures
        first_from(s, i, p) == Some(j),
    decreases j - i,
{
    if i < j {
        lemma_first_from_found(s, i + 1, p, j);
    }
}

/// Where nothing from `i` on satisfies the predicate, the search fails.
pub proof fn lemma_first_from_none<A>(s: Seq<A>, i: int, p: spec_fn(Seq<A>, int) -> bool)
    requires
        0 <= i <= s.len() + 1,
        forall|k: int| i <= k <= s.len() ==> !#[trigger] p(s, k),
    ensures
        first_from(s, i, p) is None,
    decreases s.len() + 1 - i,
{
    if i <= s.len() {
        lemma_first_from_none(s, i + 1, p);
    }
}

/// What the search returns satisfies the predicate, and nothing before it does.
pub proof fn lemma_first_from_sound<A>(s: Seq<A>, i: int, p: spec_fn(Seq<A>, int) -> bool)
    requires
        0 <= i,
    ensures
        first_from(s, i, p) matches Some(j) ==> i <= j <= s.len() && p(s, j) && forall|k: int|
            i <= k < j ==> !#[trigger] p(s, k),
        first_from(s, i, p) is None ==> forall|k: int| i <= k <= s.len() ==> !#[trigger] p(s, k),
    decreases s.len() + 1 - i,
{
    if i <= s.len() && !p(s, i) {
        lemma_first_from_sound(s, i + 1, p);
    }
}

} // verus!
