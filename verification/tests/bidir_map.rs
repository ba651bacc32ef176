use bidir_map::BidirMap;

#[test]
fn insert_three_and_look_up_both_sides() {
    let mut map: BidirMap<i32, &'static str> = BidirMap::new();
    map.insert(1, "a");
    map.insert(2, "b");
    map.insert(3, "c");
    assert_eq!(map.len(), 3);
    assert_eq!(map.get_by_first(&1), Some(&"a"));
    assert_eq!(map.get_by_second(&"b"), Some(&2));
    assert_eq!(map.remove_by_first(&1), Some((1, "a")));
    assert_eq!(map.get_by_first(&1), None);
    assert_eq!(map.len(), 2);
}

#[test]
fn reinsert_same_first_key_updates_value() {
    let mut map: BidirMap<i32, &'static str> = BidirMap::new();
    assert_eq!(map.insert(1, "a"), None);
    assert_eq!(map.insert(1, "b"), Some((1, "a")));
    assert_eq!(map.len(), 1);
    assert_eq!(map.get_by_first(&1), Some(&"b"));
}

#[test]
fn fresh_inserts_grow_by_one_and_pair_both_ways() {
    let mut map: BidirMap<i32, &'static str> = BidirMap::new();
    let pairs = [(10, "x"), (20, "y"), (30, "z")];
    for (i, (k, v)) in pairs.iter().enumerate() {
        assert_eq!(map.insert(*k, *v), None);
        assert_eq!(map.len(), i + 1);
    }
    for (k, v) in pairs.iter() {
        assert_eq!(map.get_by_first(k), Some(v));
        assert_eq!(map.get_by_second(v), Some(k));
        assert!(map.contains_first_key(k));
        assert!(map.contains_second_key(v));
    }
}

#[test]
fn reinsert_displaces_old_second_value() {
    let mut map: BidirMap<i32, &'static str> = BidirMap::new();
    map.insert(1, "a");
    map.insert(2, "b");
    assert_eq!(map.insert(1, "c"), Some((1, "a")));
    assert_eq!(map.len(), 2);
    assert_eq!(map.get_by_first(&1), Some(&"c"));
    assert_eq!(map.get_by_second(&"a"), None);
    assert!(!map.contains_second_key(&"a"));
    assert!(map.contains_second_key(&"c"));
}

#[test]
fn remove_absent_key_leaves_len_unchanged() {
    let mut map: BidirMap<i32, &'static str> = BidirMap::new();
    map.insert(1, "a");
    map.insert(2, "b");
    assert_eq!(map.remove_by_first(&7), None);
    assert_eq!(map.len(), 2);
    assert_eq!(map.remove_by_second(&"q"), None);
    assert_eq!(map.len(), 2);
}

#[test]
fn remove_present_key_returns_exact_pair() {
    let mut map: BidirMap<i32, &'static str> = BidirMap::new();
    map.insert(1, "a");
    map.insert(2, "b");
    assert_eq!(map.remove_by_first(&2), Some((2, "b")));
    assert_eq!(map.len(), 1);
    assert_eq!(map.get_by_first(&2), None);
    assert_eq!(map.get_by_second(&"b"), None);
    assert_eq!(map.remove_by_second(&"a"), Some((1, "a")));
    assert_eq!(map.len(), 0);
    assert_eq!(map.get_by_first(&1), None);
    assert_eq!(map.get_by_second(&"a"), None);
}

#[test]
fn removal_moves_last_entry_into_gap() {
    let mut map: BidirMap<i32, &'static str> = BidirMap::new();
    map.insert(1, "a");
    map.insert(2, "b");
    map.insert(3, "c");
    assert_eq!(map.remove_by_first(&1), Some((1, "a")));
    assert_eq!(map.iter(), [(3, "c"), (2, "b")].as_slice());
}

#[test]
fn round_trip_rebuilds_same_pairs() {
    let mut map: BidirMap<i32, &'static str> = BidirMap::new();
    map.insert(1, "a");
    map.insert(2, "b");
    map.insert(3, "c");
    map.remove_by_first(&2);
    let pairs = map.clone().into_iter();
    let rebuilt = BidirMap::from_iter(pairs.clone());
    assert_eq!(rebuilt.len(), map.len());
    assert_eq!(rebuilt.iter(), pairs.as_slice());
    let mut got = rebuilt.into_iter();
    let mut want = map.into_iter();
    got.sort();
    want.sort();
    assert_eq!(got, want);
}

#[test]
fn clear_is_idempotent_and_is_empty_tracks_len() {
    let mut map: BidirMap<i32, &'static str> = BidirMap::new();
    assert!(map.is_empty());
    assert_eq!(map.len(), 0);
    map.insert(1, "a");
    assert!(!map.is_empty());
    assert_eq!(map.len(), 1);
    map.clear();
    assert!(map.is_empty());
    assert_eq!(map.len(), 0);
    map.clear();
    assert!(map.is_empty());
    assert_eq!(map.len(), 0);
}

#[test]
fn iteration_order_after_pure_insertions() {
    let mut map: BidirMap<i32, &'static str> = BidirMap::new();
    map.insert(1, "a");
    map.insert(2, "b");
    map.insert(3, "c");
    assert_eq!(map.iter(), [(1, "a"), (2, "b"), (3, "c")].as_slice());
    assert_eq!(map.iter()[0], (1, "a"));
}

#[test]
fn iter_mut_updates_values_in_place() {
    let mut map: BidirMap<&'static str, i32> = BidirMap::new();
    map.insert("a", 1);
    map.insert("b", 2);
    map.insert("c", 3);
    for kv in map.iter_mut() {
        if kv.0 != "a" {
            kv.1 += 10;
        }
    }
    assert_eq!(map.len(), 3);
    assert_eq!(map.get_by_first(&"a"), Some(&1));
    assert_eq!(map.get_by_first(&"b"), Some(&12));
    assert_eq!(map.get_by_first(&"c"), Some(&13));
}

#[test]
fn extend_appends_without_displacement() {
    let mut map: BidirMap<i32, &'static str> = BidirMap::new();
    map.insert(1, "a");
    map.extend(vec![(2, "b"), (3, "c")]);
    assert_eq!(map.len(), 3);
    assert_eq!(map.iter(), [(1, "a"), (2, "b"), (3, "c")].as_slice());
}

#[test]
fn from_iter_bulk_loads_in_order() {
    let map = BidirMap::from_iter(vec![(1, "a"), (2, "b")]);
    assert_eq!(map.len(), 2);
    assert_eq!(map.iter(), [(1, "a"), (2, "b")].as_slice());
    assert_eq!(map.get_by_first(&2), Some(&"b"));
    assert_eq!(map.get_by_second(&"a"), Some(&1));
}

#[test]
fn into_iter_yields_storage_order() {
    let mut map: BidirMap<i32, &'static str> = BidirMap::new();
    map.insert(1, "a");
    map.insert(2, "b");
    let mut seen = Vec::new();
    for kv in map.into_iter() {
        seen.push(kv);
    }
    assert_eq!(seen, vec![(1, "a"), (2, "b")]);
}

#[test]
fn insert_conflicting_second_key_displaces() {
    let mut map: BidirMap<i32, &'static str> = BidirMap::new();
    map.insert(1, "a");
    assert_eq!(map.insert(2, "a"), Some((1, "a")));
    assert_eq!(map.len(), 1);
    assert_eq!(map.get_by_second(&"a"), Some(&2));
    assert_eq!(map.get_by_first(&1), None);
}

#[test]
fn insert_conflict_on_both_sides_displaces_only_first() {
    let mut map: BidirMap<i32, &'static str> = BidirMap::new();
    map.insert(1, "a");
    map.insert(2, "b");
    // (1, "b") conflicts with (1, "a") on the first side and with (2, "b")
    // on the second side: only the first-side conflict is displaced, and the
    // store is left with two entries whose second K/V is "b".
    assert_eq!(map.insert(1, "b"), Some((1, "a")));
    assert_eq!(map.len(), 2);
    assert_eq!(map.iter(), [(2, "b"), (1, "b")].as_slice());
    assert_eq!(map.get_by_second(&"b"), Some(&2));
}

#[test]
fn lookup_by_borrowed_key_type() {
    let mut map: BidirMap<String, i32> = BidirMap::new();
    map.insert("x".to_string(), 5);
    map.insert("y".to_string(), 6);
    assert!(map.contains_first_key(&"x"));
    assert_eq!(map.get_by_first(&"x"), Some(&5));
    assert_eq!(map.remove_by_first(&"y"), Some(("y".to_string(), 6)));
    assert_eq!(map.len(), 1);
}
