//! The bidirectional pair store and its specification.
//!
//! A [`BidirMap`] holds an ordered sequence of `(first, second)` pairs and
//! behaves like two unique-key maps sharing one backing store: the first
//! component of each pair keys the second and vice versa.  Equality on keys is
//! the consumer-supplied [`PartialEq`] relation, which the contracts describe
//! through its vstd specification `eq_spec`; every claim that depends on key
//! comparison is therefore conditioned on `obeys_eq`, which says that the
//! consumer's `eq` follows that specification.

use vstd::prelude::*;
use vstd::std_specs::cmp::PartialEqSpec;

verus! {

/// The consumer's equality used to compare a query of type `Q` with a stored
/// value of type `T` follows its specification `eq_spec`.
///
/// vstd guarantees this for the primitive types; for consumer types it holds
/// exactly when the consumer's `PartialEq` is verified against `eq_spec`.
pub open spec fn obeys_eq<T, Q: PartialEq<T>>() -> bool {
    <Q as PartialEqSpec<T>>::obeys_eq_spec()
}

/// The query `key` accepts the first component of the entry at index `i`.
pub open spec fn matches_first<Kv1, Kv2, Q: PartialEq<Kv1>>(
    s: Seq<(Kv1, Kv2)>,
    key: Q,
    i: int,
) -> bool {
    key.eq_spec(&s[i].0)
}

/// The query `key` accepts the second component of the entry at index `i`.
pub open spec fn matches_second<Kv1, Kv2, Q: PartialEq<Kv2>>(
    s: Seq<(Kv1, Kv2)>,
    key: Q,
    i: int,
) -> bool {
    key.eq_spec(&s[i].1)
}

/// Some entry's first component is accepted by the query `key`.
pub open spec fn has_first<Kv1, Kv2, Q: PartialEq<Kv1>>(s: Seq<(Kv1, Kv2)>, key: Q) -> bool {
    exists|i: int| 0 <= i < s.len() && #[trigger] matches_first(s, key, i)
}

/// Some entry's second component is accepted by the query `key`.
pub open spec fn has_second<Kv1, Kv2, Q: PartialEq<Kv2>>(s: Seq<(Kv1, Kv2)>, key: Q) -> bool {
    exists|i: int| 0 <= i < s.len() && #[trigger] matches_second(s, key, i)
}

/// `i` is the position of the earliest entry whose first component the query
/// `key` accepts.  Lookups and removals act on exactly this position.
pub open spec fn earliest_first<Kv1, Kv2, Q: PartialEq<Kv1>>(
    s: Seq<(Kv1, Kv2)>,
    key: Q,
    i: int,
) -> bool {
    &&& 0 <= i < s.len()
    &&& matches_first(s, key, i)
    &&& forall|j: int| 0 <= j < i ==> !matches_first(s, key, j)
}

/// `i` is the position of the earliest entry whose second component the query
/// `key` accepts.
pub open spec fn earliest_second<Kv1, Kv2, Q: PartialEq<Kv2>>(
    s: Seq<(Kv1, Kv2)>,
    key: Q,
    i: int,
) -> bool {
    &&& 0 <= i < s.len()
    &&& matches_second(s, key, i)
    &&& forall|j: int| 0 <= j < i ==> !matches_second(s, key, j)
}

/// The sequence left after removing the entry at index `i` by the
/// swap-with-last-and-pop strategy: the former last entry takes position `i`,
/// so removal costs O(1) but does not preserve the order of what remains.
pub open spec fn swap_removed<T>(s: Seq<T>, i: int) -> Seq<T> {
    s.update(i, s.last()).drop_last()
}

/// A bidirectional map: each stored pair can be looked up by its first
/// component or by its second component.
///
/// The view of a `BidirMap` is its sequence of entries in storage order;
/// insertion order is the only ordering and is only meaningful until the
/// first removal.
#[derive(Clone, Debug, Hash, PartialEq, Eq)]
pub struct BidirMap<Kv1: PartialEq, Kv2: PartialEq> {
    cont: Vec<(Kv1, Kv2)>,
}

impl<Kv1: PartialEq, Kv2: PartialEq> View for BidirMap<Kv1, Kv2> {
    type V = Seq<(Kv1, Kv2)>;

    closed spec fn view(&self) -> Seq<(Kv1, Kv2)> {
        self.cont@
    }
}

impl<Kv1: PartialEq, Kv2: PartialEq> BidirMap<Kv1, Kv2> {
    /// Create a new empty instance of `BidirMap`.
    pub fn new() -> (r: Self)
        ensures
            r@ == Seq::<(Kv1, Kv2)>::empty(),
    {
        BidirMap { cont: Vec::new() }
    }

    /// Clears the map, removing all entries.
    pub fn clear(&mut self)
        ensures
            final(self)@ == Seq::<(Kv1, Kv2)>::empty(),
    {
        self.cont.clear()
    }

    /// Returns the number of entries in the map.
    pub fn len(&self) -> (r: usize)
        ensures
            r == self@.len(),
    {
        self.cont.len()
    }

    /// Returns true if the map contains no entries.
    pub fn is_empty(&self) -> (r: bool)
        ensures
            r == (self@.len() == 0),
    {
        self.cont.is_empty()
    }

    /// Inserts a K/V-K/V pair into the map.
    ///
    /// If an existing entry's first K/V equals `kv1`, that entry is removed
    /// first and returned; otherwise, if an existing entry's second K/V
    /// equals `kv2`, that entry is removed and returned; otherwise `None` is
    /// returned.  The new pair is then appended, so it always becomes the
    /// last entry in storage order.
    ///
    /// At most one conflicting entry is displaced per insertion.  When one
    /// entry conflicts with `kv1` on the first side and a different entry
    /// conflicts with `kv2` on the second side, only the first-side conflict
    /// is removed: the second-side conflict stays, and the store then holds
    /// two entries with equal second K/Vs until the caller resolves it.
    pub fn insert(&mut self, kv1: Kv1, kv2: Kv2) -> (r: Option<(Kv1, Kv2)>)
        ensures
            (match r {
                None => final(self)@ == old(self)@.push((kv1, kv2)),
                Some(p) => exists|i: int|
                    0 <= i < old(self)@.len() && p == old(self)@[i] && final(self)@
                        == #[trigger] swap_removed(old(self)@, i).push((kv1, kv2)),
            }),
            obeys_eq::<Kv1, Kv1>() && obeys_eq::<Kv2, Kv2>() ==> ({
                let s = old(self)@;
                if has_first(s, kv1) {
                    exists|i: int|
                        #[trigger] earliest_first(s, kv1, i) && r == Some(s[i]) && final(self)@
                            == swap_removed(s, i).push((kv1, kv2))
                } else if has_second(s, kv2) {
                    exists|i: int|
                        #[trigger] earliest_second(s, kv2, i) && r == Some(s[i]) && final(self)@
                            == swap_removed(s, i).push((kv1, kv2))
                } else {
                    r is None && final(self)@ == s.push((kv1, kv2))
                }
            }),
    {
        let retval = if self.contains_first_key(&kv1) {
            self.remove_by_first(&kv1)
        } else if self.contains_second_key(&kv2) {
            self.remove_by_second(&kv2)
        } else {
            None
        };

        self.cont.push((kv1, kv2));

        retval
    }

    /// Check if the map contains the first K/V.
    pub fn contains_first_key<Q: PartialEq<Kv1>>(&self, key: &Q) -> (r: bool)
        ensures
            obeys_eq::<Kv1, Q>() ==> r == has_first(self@, *key),
    {
        let n = self.cont.len();
        for i in 0..n
            invariant
                n == self@.len(),
                obeys_eq::<Kv1, Q>() ==> forall|j: int|
                    0 <= j < i ==> !matches_first(self@, *key, j),
        {
            if *key == self.cont[i].0 {
                proof {
                    if obeys_eq::<Kv1, Q>() {
                        assert(matches_first(self@, *key, i as int));
                    }
                }
                return true;
            }
        }
        false
    }

    /// Check if the map contains the second K/V.
    pub fn contains_second_key<Q: PartialEq<Kv2>>(&self, key: &Q) -> (r: bool)
        ensures
            obeys_eq::<Kv2, Q>() ==> r == has_second(self@, *key),
    {
        let n = self.cont.len();
        for i in 0..n
            invariant
                n == self@.len(),
                obeys_eq::<Kv2, Q>() ==> forall|j: int|
                    0 <= j < i ==> !matches_second(self@, *key, j),
        {
            if *key == self.cont[i].1 {
                proof {
                    if obeys_eq::<Kv2, Q>() {
                        assert(matches_second(self@, *key, i as int));
                    }
                }
                return true;
            }
        }
        false
    }

    /// Returns a reference to the second K/V paired with the earliest entry
    /// whose first K/V the key accepts.
    pub fn get_by_first<Q: PartialEq<Kv1>>(&self, key: &Q) -> (r: Option<&Kv2>)
        ensures
            r matches Some(b) ==> exists|i: int|
                0 <= i < self@.len() && *b == #[trigger] self@[i].1,
            obeys_eq::<Kv1, Q>() ==> (match r {
                None => !has_first(self@, *key),
                Some(b) => exists|i: int|
                    #[trigger] earliest_first(self@, *key, i) && *b == self@[i].1,
            }),
    {
        let n = self.cont.len();
        for i in 0..n
            invariant
                n == self@.len(),
                obeys_eq::<Kv1, Q>() ==> forall|j: int|
                    0 <= j < i ==> !matches_first(self@, *key, j),
        {
            if *key == self.cont[i].0 {
                proof {
                    if obeys_eq::<Kv1, Q>() {
                        assert(earliest_first(self@, *key, i as int));
                    }
                }
                return Some(&self.cont[i].1);
            }
        }
        None
    }

    /// Returns a reference to the first K/V paired with the earliest entry
    /// whose second K/V the key accepts.
    pub fn get_by_second<Q: PartialEq<Kv2>>(&self, key: &Q) -> (r: Option<&Kv1>)
        ensures
            r matches Some(a) ==> exists|i: int|
                0 <= i < self@.len() && *a == #[trigger] self@[i].0,
            obeys_eq::<Kv2, Q>() ==> (match r {
                None => !has_second(self@, *key),
                Some(a) => exists|i: int|
                    #[trigger] earliest_second(self@, *key, i) && *a == self@[i].0,
            }),
    {
        let n = self.cont.len();
        for i in 0..n
            invariant
                n == self@.len(),
                obeys_eq::<Kv2, Q>() ==> forall|j: int|
                    0 <= j < i ==> !matches_second(self@, *key, j),
        {
            if *key == self.cont[i].1 {
                proof {
                    if obeys_eq::<Kv2, Q>() {
                        assert(earliest_second(self@, *key, i as int));
                    }
                }
                return Some(&self.cont[i].0);
            }
        }
        None
    }

    /// Removes the pair corresponding to the first K/V from the map,
    /// returning it if the key was previously in the map.
    ///
    /// Removal swaps the former last entry into the removed position, so it
    /// costs O(1) but does not preserve the order of the remaining entries.
    pub fn remove_by_first<Q: PartialEq<Kv1>>(&mut self, key: &Q) -> (r: Option<(Kv1, Kv2)>)
        ensures
            (match r {
                None => final(self)@ == old(self)@,
                Some(p) => exists|i: int|
                    0 <= i < old(self)@.len() && p == old(self)@[i] && final(self)@
                        == #[trigger] swap_removed(old(self)@, i),
            }),
            obeys_eq::<Kv1, Q>() ==> (match r {
                None => !has_first(old(self)@, *key),
                Some(p) => exists|i: int|
                    #[trigger] earliest_first(old(self)@, *key, i) && p == old(self)@[i]
                        && final(self)@ == swap_removed(old(self)@, i),
            }),
    {
        let n = self.cont.len();
        for i in 0..n
            invariant
                *self == *old(self),
                n == self@.len(),
                obeys_eq::<Kv1, Q>() ==> forall|j: int|
                    0 <= j < i ==> !matches_first(self@, *key, j),
        {
            if *key == self.cont[i].0 {
                proof {
                    if obeys_eq::<Kv1, Q>() {
                        assert(earliest_first(self@, *key, i as int));
                    }
                }
                let p = self.cont.swap_remove(i);
                proof {
                    assert(self@ == swap_removed(old(self)@, i as int));
                }
                return Some(p);
            }
        }
        None
    }

    /// Removes the pair corresponding to the second K/V from the map,
    /// returning it if the key was previously in the map.
    ///
    /// Removal swaps the former last entry into the removed position, so it
    /// costs O(1) but does not preserve the order of the remaining entries.
    pub fn remove_by_second<Q: PartialEq<Kv2>>(&mut self, key: &Q) -> (r: Option<(Kv1, Kv2)>)
        ensures
            (match r {
                None => final(self)@ == old(self)@,
                Some(p) => exists|i: int|
                    0 <= i < old(self)@.len() && p == old(self)@[i] && final(self)@
                        == #[trigger] swap_removed(old(self)@, i),
            }),
            obeys_eq::<Kv2, Q>() ==> (match r {
                None => !has_second(old(self)@, *key),
                Some(p) => exists|i: int|
                    #[trigger] earliest_second(old(self)@, *key, i) && p == old(self)@[i]
                        && final(self)@ == swap_removed(old(self)@, i),
            }),
    {
        let n = self.cont.len();
        for i in 0..n
            invariant
                *self == *old(self),
                n == self@.len(),
                obeys_eq::<Kv2, Q>() ==> forall|j: int|
                    0 <= j < i ==> !matches_second(self@, *key, j),
        {
            if *key == self.cont[i].1 {
                proof {
                    if obeys_eq::<Kv2, Q>() {
                        assert(earliest_second(self@, *key, i as int));
                    }
                }
                let p = self.cont.swap_remove(i);
                proof {
                    assert(self@ == swap_removed(old(self)@, i as int));
                }
                return Some(p);
            }
        }
        None
    }

    /// Borrow the entries of the map in current storage order, read-only.
    pub fn iter(&self) -> (r: &[(Kv1, Kv2)])
        ensures
            r@ == self@,
    {
        self.cont.as_slice()
    }

    /// Borrow the entries of the map mutably, in current storage order.
    ///
    /// Either component of an entry may be replaced in place through the
    /// returned slice; the entry count cannot change.  The store does not
    /// re-validate uniqueness after mutation through this handle: the caller
    /// is responsible for not introducing equal first K/Vs or equal second
    /// K/Vs.
    pub fn iter_mut(&mut self) -> (r: &mut [(Kv1, Kv2)])
        ensures
            r@ == old(self)@,
            final(r)@ == final(self)@,
    {
        self.cont.as_mut_slice()
    }

    /// Consume the map, yielding its entries as a vector in current storage
    /// order.
    pub fn into_iter(self) -> (r: Vec<(Kv1, Kv2)>)
        ensures
            r@ == self@,
    {
        self.cont
    }

    /// Bulk construction from an existing vector of pairs, taken in order
    /// and without uniqueness checks: the caller is responsible for the
    /// input holding no equal first K/Vs and no equal second K/Vs.
    pub fn from_iter(pairs: Vec<(Kv1, Kv2)>) -> (r: Self)
        ensures
            r@ == pairs@,
    {
        BidirMap { cont: pairs }
    }

    /// Appends a vector of pairs entry by entry, with the plain-append
    /// semantics: no conflict displacement is performed, so the caller is
    /// responsible for uniqueness on both sides.
    pub fn extend(&mut self, pairs: Vec<(Kv1, Kv2)>)
        ensures
            final(self)@ == old(self)@ + pairs@,
    {
        let mut pairs = pairs;
        self.cont.append(&mut pairs);
    }
}

} // verus!
