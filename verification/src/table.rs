//! Lookup in a sequence of entries by the first entry that matches.

use vstd::prelude::*;

verus! {

/// The place of the first entry of `s` that `hit` accepts, or -1.
pub open spec fn position<T>(s: Seq<T>, hit: spec_fn(T) -> bool) -> int
    decreases s.len(),
{
    if s.len() == 0 {
        -1
    } else if hit(s.first()) {
        0
    } else {
        let rest = position(s.drop_first(), hit);
        if rest < 0 {
            -1
        } else {
            rest + 1
        }
    }
}

/// Whether `hit` accepts an entry of `s`.
pub open spec fn present<T>(s: Seq<T>, hit: spec_fn(T) -> bool) -> bool {
    position(s, hit) >= 0
}

/// `s` with the entry put in the place of the first one that `hit` accepts,
/// or at the end if there is none.
pub open spec fn put<T>(s: Seq<T>, hit: spec_fn(T) -> bool, entry: T) -> Seq<T> {
    if present(s, hit) {
        s.update(position(s, hit), entry)
    } else {
        s.push(entry)
    }
}

/// `s` without the first entry that `hit` accepts.
pub open spec fn without<T>(s: Seq<T>, hit: spec_fn(T) -> bool) -> Seq<T> {
    if present(s, hit) {
        s.remove(position(s, hit))
    } else {
        s
    }
}

/// A position is -1 or the place of an accepted entry that no accepted entry
/// precedes.
pub proof fn lemma_position<T>(s: Seq<T>, hit: spec_fn(T) -> bool)
    ensures
        -1 <= position(s, hit) < s.len(),
        position(s, hit) >= 0 ==> hit(s[position(s, hit)]),
        forall|j: int| 0 <= j < s.len() && hit(s[j]) ==> 0 <= position(s, hit) <= j,
    decreases s.len(),
{
    if s.len() > 0 && !hit(s.first()) {
        let rest = s.drop_first();
        lemma_position(rest, hit);
        assert forall|j: int| 0 <= j < s.len() && hit(s[j]) implies 0 <= position(s, hit) <= j by {
            assert(rest[j - 1] == s[j]);
        }
    }
}

/// The first accepted entry is at `i` when the entry there is accepted and
/// none before it is.
pub proof fn lemma_position_at<T>(s: Seq<T>, hit: spec_fn(T) -> bool, i: int)
    requires
        0 <= i < s.len(),
        hit(s[i]),
        forall|j: int| 0 <= j < i ==> !hit(s[j]),
    ensures
        position(s, hit) == i,
{
    lemma_position(s, hit);
}

/// There is no position when no entry is accepted.
pub proof fn lemma_position_none<T>(s: Seq<T>, hit: spec_fn(T) -> bool)
    requires
        forall|j: int| 0 <= j < s.len() ==> !hit(s[j]),
    ensures
        position(s, hit) == -1,
{
    lemma_position(s, hit);
}

} // verus!
