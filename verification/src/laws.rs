//! Laws of the bidirectional pair store.
//!
//! Each proof function states, over the store's specification model, a
//! property that callers of [`crate::store::BidirMap`] may rely on.  The
//! model is the sequence of entries together with the consumer-supplied
//! equality relation `eq_spec`; the hypotheses of each law hold exactly what
//! the corresponding operations' contracts provide.

use vstd::prelude::*;
use vstd::std_specs::cmp::PartialEqSpec;

use crate::store::BidirMap;
use crate::store::earliest_first;
use crate::store::earliest_second;
use crate::store::has_first;
use crate::store::has_second;
use crate::store::matches_first;
use crate::store::matches_second;
use crate::store::swap_removed;

verus! {

/// Inserting a pair whose first K/V matches no stored first K/V and whose
/// second K/V matches no stored second K/V grows the store by exactly one
/// entry, and both sides then find their match at the appended entry, so
/// each side's lookup returns the other component of the new pair.
pub proof fn law_insert_fresh_pair<Kv1: PartialEq, Kv2: PartialEq>(
    s: Seq<(Kv1, Kv2)>,
    kv1: Kv1,
    kv2: Kv2,
)
    requires
        !has_first(s, kv1),
        !has_second(s, kv2),
        kv1.eq_spec(&kv1),
        kv2.eq_spec(&kv2),
    ensures
        s.push((kv1, kv2)).len() == s.len() + 1,
        earliest_first(s.push((kv1, kv2)), kv1, s.len() as int),
        earliest_second(s.push((kv1, kv2)), kv2, s.len() as int),
        s.push((kv1, kv2))[s.len() as int] == (kv1, kv2),
{
    let t = s.push((kv1, kv2));
    let n = s.len() as int;
    assert(t[n] == (kv1, kv2));
    assert(matches_first(t, kv1, n));
    assert(matches_second(t, kv2, n));
    assert forall|j: int| 0 <= j < n implies !matches_first(t, kv1, j) && !matches_second(
        t,
        kv2,
        j,
    ) by {
        assert(t[j] == s[j]);
        assert(!matches_first(s, kv1, j));
        assert(!matches_second(s, kv2, j));
    }
}

/// Re-inserting a stored first K/V with a new second K/V keeps the entry
/// count: exactly the one entry matching that first K/V is displaced, the
/// first K/V afterwards finds the new second K/V at the freshly appended
/// last entry, and the displaced second K/V is no longer found on the
/// second side.
pub proof fn law_reinsert_first_key<Kv1: PartialEq, Kv2: PartialEq>(
    s: Seq<(Kv1, Kv2)>,
    kv1: Kv1,
    kv2: Kv2,
    i: int,
)
    requires
        0 <= i < s.len(),
        matches_first(s, kv1, i),
        forall|j: int| 0 <= j < s.len() && j != i ==> !matches_first(s, kv1, j),
        forall|j: int| 0 <= j < s.len() && j != i ==> !matches_second(s, s[i].1, j),
        kv1.eq_spec(&kv1),
        !s[i].1.eq_spec(&kv2),
    ensures
        earliest_first(s, kv1, i),
        swap_removed(s, i).push((kv1, kv2)).len() == s.len(),
        earliest_first(swap_removed(s, i).push((kv1, kv2)), kv1, s.len() - 1),
        swap_removed(s, i).push((kv1, kv2))[s.len() - 1] == (kv1, kv2),
        !has_second(swap_removed(s, i).push((kv1, kv2)), s[i].1),
{
    let t = swap_removed(s, i).push((kv1, kv2));
    let n = s.len() as int;
    assert(t[n - 1] == (kv1, kv2));
    assert(matches_first(t, kv1, n - 1));
    assert forall|j: int| 0 <= j < n - 1 implies !matches_first(t, kv1, j) by {
        if j == i {
            assert(t[j] == s[n - 1]);
            assert(!matches_first(s, kv1, n - 1));
        } else {
            assert(t[j] == s[j]);
            assert(!matches_first(s, kv1, j));
        }
    }
    assert forall|j: int| 0 <= j < n implies !matches_second(t, s[i].1, j) by {
        if j == n - 1 {
            assert(t[j].1 == kv2);
        } else if j == i {
            assert(t[j] == s[n - 1]);
            assert(!matches_second(s, s[i].1, n - 1));
        } else {
            assert(t[j] == s[j]);
            assert(!matches_second(s, s[i].1, j));
        }
    }
}

/// Removing the single entry matched on both sides leaves a store with one
/// entry fewer in which neither the first-side query nor the second-side
/// query finds a match any more.  The matched position is the earliest match
/// on either side, so removal by either key removes this exact entry.
pub proof fn law_remove_present_key<
    Kv1: PartialEq,
    Kv2: PartialEq,
    Q1: PartialEq<Kv1>,
    Q2: PartialEq<Kv2>,
>(s: Seq<(Kv1, Kv2)>, q1: Q1, q2: Q2, i: int)
    requires
        0 <= i < s.len(),
        matches_first(s, q1, i),
        forall|j: int| 0 <= j < s.len() && j != i ==> !matches_first(s, q1, j),
        matches_second(s, q2, i),
        forall|j: int| 0 <= j < s.len() && j != i ==> !matches_second(s, q2, j),
    ensures
        earliest_first(s, q1, i),
        earliest_second(s, q2, i),
        swap_removed(s, i).len() == s.len() - 1,
        !has_first(swap_removed(s, i), q1),
        !has_second(swap_removed(s, i), q2),
{
    let t = swap_removed(s, i);
    let n = s.len() as int;
    assert forall|j: int| 0 <= j < n - 1 implies !matches_first(t, q1, j) && !matches_second(
        t,
        q2,
        j,
    ) by {
        if j == i {
            assert(t[j] == s[n - 1]);
            assert(!matches_first(s, q1, n - 1));
            assert(!matches_second(s, q2, n - 1));
        } else {
            assert(t[j] == s[j]);
            assert(!matches_first(s, q1, j));
            assert(!matches_second(s, q2, j));
        }
    }
}

/// Round trip: a store rebuilt from the sequence of pairs yielded by another
/// store holds the same number of entries and exactly the same pairs.  The
/// hypotheses are what `into_iter` and `from_iter` ensure.
pub proof fn law_round_trip<Kv1: PartialEq, Kv2: PartialEq>(
    m: BidirMap<Kv1, Kv2>,
    pairs: Seq<(Kv1, Kv2)>,
    rebuilt: BidirMap<Kv1, Kv2>,
)
    requires
        pairs == m@,
        rebuilt@ == pairs,
    ensures
        rebuilt@.len() == m@.len(),
        rebuilt@.to_multiset() == m@.to_multiset(),
        rebuilt@ == m@,
{
}

/// Clearing is idempotent: clearing any store empties it, and clearing the
/// already-empty result changes nothing.  The hypotheses are what `clear`
/// ensures of the two calls.
pub proof fn law_clear_idempotent<Kv1: PartialEq, Kv2: PartialEq>(
    once: BidirMap<Kv1, Kv2>,
    twice: BidirMap<Kv1, Kv2>,
)
    requires
        once@ == Seq::<(Kv1, Kv2)>::empty(),
        twice@ == Seq::<(Kv1, Kv2)>::empty(),
    ensures
        twice@ == once@,
        once@.len() == 0,
{
}

} // verus!
