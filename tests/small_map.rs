use starlark::small_map::{SmallMap, NO_INDEX_THRESHOLD};
use starlark::small_set::SmallSet;

fn entries<V: Clone>(m: &SmallMap<String, V>) -> Vec<(String, V)> {
    let mut r = Vec::new();
    let mut i = 0;
    while let Some((k, v)) = m.get_index(i) {
        r.push((k.clone(), v.clone()));
        i += 1;
    }
    r
}

#[test]
fn round_trip_insert_remove_iterate() {
    let mut m = SmallMap::new();
    m.insert(String::from("a"), 1);
    m.insert(String::from("b"), 2);
    m.insert(String::from("c"), 3);
    assert_eq!(m.remove("b"), Some(2));
    assert_eq!(entries(&m), vec![(String::from("a"), 1), (String::from("c"), 3)]);
}

#[test]
fn insertion_order_kept_across_index_build() {
    let mut m = SmallMap::new();
    for i in 0..200u32 {
        assert_eq!(m.insert(format!("k{}", i), i), None);
    }
    assert_eq!(m.len(), 200);
    for i in 0..200u32 {
        let (k, v) = m.get_index(i as usize).unwrap();
        assert_eq!(k, &format!("k{}", i));
        assert_eq!(*v, i);
        assert_eq!(m.get(format!("k{}", i).as_str()), Some(&i));
    }
    assert_eq!(m.get("k200"), None);
}

#[test]
fn lookup_by_borrowed_view() {
    let mut m = SmallMap::new();
    m.insert(String::from("alpha"), 10);
    m.insert(String::from("beta"), 20);
    assert_eq!(m.get("alpha"), Some(&10));
    assert_eq!(m.get(&String::from("beta")), Some(&20));
    assert!(m.contains_key("beta"));
    assert!(!m.contains_key("gamma"));
}

#[test]
fn length_counts_insertions_and_removals() {
    let mut m = SmallMap::new();
    assert!(m.is_empty());
    assert_eq!(m.insert(1u32, "one"), None);
    assert_eq!(m.insert(2u32, "two"), None);
    assert_eq!(m.len(), 2);
    assert_eq!(m.insert(1u32, "uno"), Some("one"));
    assert_eq!(m.len(), 2);
    assert_eq!(m.remove(&3u32), None);
    assert_eq!(m.len(), 2);
    assert_eq!(m.remove(&1u32), Some("uno"));
    assert_eq!(m.len(), 1);
    assert_eq!(m.remove(&1u32), None);
    assert_eq!(m.len(), 1);
}

#[test]
fn replacing_a_value_keeps_its_place() {
    let mut m = SmallMap::new();
    m.insert(String::from("x"), 1);
    m.insert(String::from("y"), 2);
    assert_eq!(m.insert(String::from("x"), 5), Some(1));
    assert_eq!(entries(&m), vec![(String::from("x"), 5), (String::from("y"), 2)]);
}

#[test]
fn backend_transition_is_transparent() {
    let mut small = SmallMap::new();
    let mut large = SmallMap::new();
    for i in 1000..1100u32 {
        large.insert(i, i);
    }
    for i in 1000..1100u32 {
        assert_eq!(large.remove(&i), Some(i));
    }
    assert!(large.is_empty());
    for i in 0..20u32 {
        small.insert(i * 7, i);
        large.insert(i * 7, i);
    }
    assert_eq!(small.len(), large.len());
    for i in 0..20usize {
        assert_eq!(small.get_index(i), large.get_index(i));
    }
    for q in 0..200u32 {
        assert_eq!(small.get(&q), large.get(&q));
    }
}

#[test]
fn index_survives_removal_in_the_middle() {
    let mut m = SmallMap::new();
    let n = (NO_INDEX_THRESHOLD as u32) * 3;
    for i in 0..n {
        m.insert(i, i + 1);
    }
    for i in (0..n).filter(|i| i % 3 == 0) {
        assert_eq!(m.remove(&i), Some(i + 1));
    }
    for i in 0..n {
        let expected = if i % 3 == 0 { None } else { Some(i + 1) };
        assert_eq!(m.get(&i).copied(), expected);
    }
    assert_eq!(m.get_index(0), Some((&1, &2)));
    let (i, k, v) = m.get_full_hashed(starlark::hashed::Hashed::new(&5u32)).unwrap();
    assert_eq!((i, *k, *v), (3, 5, 6));
}

#[test]
fn from_entries_and_into_iter_hashed() {
    let m = SmallMap::from_entries(vec![(3u32, 'c'), (1, 'a'), (3, 'z'), (2, 'b')]);
    assert_eq!(m.len(), 3);
    let all = m.into_iter_hashed();
    let flat: Vec<(u32, char)> = all.iter().map(|(k, v)| (*k.key(), *v)).collect();
    assert_eq!(flat, vec![(3, 'z'), (1, 'a'), (2, 'b')]);
}

#[test]
fn clear_empties_large_map() {
    let mut m = SmallMap::with_capacity(4);
    for i in 0..50u32 {
        m.insert(i, ());
    }
    m.clear();
    assert_eq!(m.len(), 0);
    assert!(m.get(&3u32).is_none());
    m.insert(3u32, ());
    assert!(m.contains_key(&3u32));
}

#[test]
fn small_set_keeps_order_and_uniqueness() {
    let mut s = SmallSet::new();
    assert!(s.insert(String::from("b")));
    assert!(s.insert(String::from("a")));
    assert!(!s.insert(String::from("b")));
    assert_eq!(s.len(), 2);
    assert_eq!(s.get_index(0).map(|k| k.as_str()), Some("b"));
    assert_eq!(s.get_index(1).map(|k| k.as_str()), Some("a"));
    assert!(s.contains("a"));
    assert!(s.remove("b"));
    assert!(!s.remove("b"));
    assert!(!s.contains("b"));
    assert_eq!(s.len(), 1);
    assert!(!s.is_empty());
}

#[test]
fn small_set_remove_keeps_order_of_the_rest() {
    let mut s = SmallSet::new();
    for k in [5u32, 3, 9, 1] {
        s.insert(k);
    }
    assert!(s.remove(&3u32));
    let rest: Vec<u32> = (0..s.len()).map(|i| *s.get_index(i).unwrap()).collect();
    assert_eq!(rest, vec![5, 9, 1]);
}
