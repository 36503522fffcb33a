use starlark::hashed::Hashed;
use starlark::vec_map::VecMap;

fn sample() -> VecMap<String, u32> {
    let mut m = VecMap::new();
    m.insert_unique_unchecked(Hashed::new(String::from("a")), 1);
    m.insert_unique_unchecked(Hashed::new(String::from("b")), 2);
    m.insert_unique_unchecked(Hashed::new(String::from("c")), 3);
    m
}

#[test]
fn vec_map_new_is_empty() {
    let m: VecMap<u32, u32> = VecMap::new();
    assert_eq!(m.len(), 0);
    assert!(m.is_empty());
    let w: VecMap<u32, u32> = VecMap::with_capacity(10);
    assert!(w.is_empty());
}

#[test]
fn vec_map_get_full_finds_by_borrowed_key() {
    let m = sample();
    assert_eq!(m.len(), 3);
    let (i, k, v) = m.get_full(Hashed::new("b")).unwrap();
    assert_eq!(i, 1);
    assert_eq!(k, "b");
    assert_eq!(*v, 2);
    assert!(m.get_full(Hashed::new("z")).is_none());
    assert_eq!(m.get_index_of_hashed(Hashed::new("c")), Some(2));
}

#[test]
fn vec_map_get_index() {
    let m = sample();
    assert_eq!(m.get_index(0), Some((&String::from("a"), &1)));
    assert_eq!(m.get_index(3), None);
    let (hk, v) = m.get_unchecked(2);
    assert_eq!(hk.key().as_str(), "c");
    assert_eq!(hk.hash(), Hashed::new("c").hash());
    assert_eq!(*v, 3);
}

#[test]
fn vec_map_remove_hashed_entry_keeps_order() {
    let mut m = sample();
    assert_eq!(m.remove_hashed_entry(Hashed::new("b")), Some((String::from("b"), 2)));
    assert_eq!(m.remove_hashed_entry(Hashed::new("b")), None);
    assert_eq!(m.len(), 2);
    assert_eq!(m.get_index(0), Some((&String::from("a"), &1)));
    assert_eq!(m.get_index(1), Some((&String::from("c"), &3)));
}

#[test]
fn vec_map_remove_and_pop() {
    let mut m = sample();
    let (hk, v) = m.remove(0);
    assert_eq!(hk.key().as_str(), "a");
    assert_eq!(v, 1);
    let (hk, v) = m.pop().unwrap();
    assert_eq!(hk.key().as_str(), "c");
    assert_eq!(hk.hash(), Hashed::new("c").hash());
    assert_eq!(v, 3);
    assert_eq!(m.len(), 1);
    m.pop();
    assert!(m.pop().is_none());
}

#[test]
fn vec_map_replace_value_and_clear() {
    let mut m = sample();
    assert_eq!(m.replace_value(1, 20), 2);
    assert_eq!(m.get_index(1), Some((&String::from("b"), &20)));
    m.reserve(5);
    assert_eq!(m.len(), 3);
    m.clear();
    assert!(m.is_empty());
}

#[test]
fn vec_map_into_iter_hashed_in_order() {
    let m = sample();
    let all = m.into_iter_hashed();
    let keys: Vec<String> = all.iter().map(|(k, _)| k.key().clone()).collect();
    let values: Vec<u32> = all.iter().map(|(_, v)| *v).collect();
    assert_eq!(keys, vec!["a", "b", "c"]);
    assert_eq!(values, vec![1, 2, 3]);
    assert_eq!(all[1].0.hash(), Hashed::new("b").hash());
}

#[test]
fn vec_map_keys_and_values_in_order() {
    let m = sample();
    let keys: Vec<&str> = m.keys().into_iter().map(|k| k.as_str()).collect();
    assert_eq!(keys, vec!["a", "b", "c"]);
    let values: Vec<u32> = m.values().into_iter().copied().collect();
    assert_eq!(values, vec![1, 2, 3]);
}

fn numbers(pairs: &[(u32, u32)]) -> VecMap<u32, u32> {
    let mut m = VecMap::new();
    for (k, v) in pairs {
        m.insert_unique_unchecked(Hashed::new(*k), *v);
    }
    m
}

#[test]
fn vec_map_eq_ordered_depends_on_order() {
    let a = numbers(&[(1, 10), (2, 20)]);
    let b = numbers(&[(1, 10), (2, 20)]);
    let c = numbers(&[(2, 20), (1, 10)]);
    let d = numbers(&[(1, 10), (2, 21)]);
    assert!(a.eq_ordered(&b));
    assert!(!a.eq_ordered(&c));
    assert!(!a.eq_ordered(&d));
    assert!(!a.eq_ordered(&numbers(&[(1, 10)])));
}

#[test]
fn vec_map_hash_ordered_folds_stored_hashes() {
    let a = numbers(&[(1, 2)]);
    assert_eq!(a.hash_ordered().get(), 1792548330);
    let b = numbers(&[(1, 10), (2, 20)]);
    let c = numbers(&[(2, 20), (1, 10)]);
    assert_eq!(b.hash_ordered(), numbers(&[(1, 10), (2, 20)]).hash_ordered());
    assert_ne!(b.hash_ordered(), c.hash_ordered());
    let empty: VecMap<u32, u32> = VecMap::new();
    assert_eq!(empty.hash_ordered().get(), 2166136261);
}

#[test]
fn vec_map_sort_keys_orders_by_key() {
    let mut m = numbers(&[(30, 3), (10, 1), (20, 2)]);
    m.sort_keys();
    assert!(m.eq_ordered(&numbers(&[(10, 1), (20, 2), (30, 3)])));
    let mut s: VecMap<String, u32> = VecMap::new();
    for (k, v) in [("pear", 1), ("apple", 2), ("app", 3), ("b", 4)] {
        s.insert_unique_unchecked(Hashed::new(String::from(k)), v);
    }
    s.sort_keys();
    let keys: Vec<&str> = s.keys().into_iter().map(|k| k.as_str()).collect();
    assert_eq!(keys, vec!["app", "apple", "b", "pear"]);
    assert_eq!(s.get_full(Hashed::new("pear")).map(|(i, _, v)| (i, *v)), Some((3, 1)));
}

#[test]
fn vec_map_capacity_does_not_change_lookups() {
    let mut a: VecMap<u32, u32> = VecMap::new();
    let mut b: VecMap<u32, u32> = VecMap::with_capacity(100);
    for k in 0..60u32 {
        a.insert_unique_unchecked(Hashed::new(k * 3), k);
        b.insert_unique_unchecked(Hashed::new(k * 3), k);
    }
    assert!(a.eq_ordered(&b));
    for q in 0..200u32 {
        assert_eq!(a.get_full(Hashed::new(&q)), b.get_full(Hashed::new(&q)));
    }
    let keys: Vec<u32> = a.keys().into_iter().copied().collect();
    assert_eq!(keys, (0..60u32).map(|k| k * 3).collect::<Vec<u32>>());
}
