use starlark::equivalent::{Equivalent, StarlarkHashKey};
use starlark::hash_value::StarlarkHashValue;
use starlark::hashed::Hashed;

#[test]
fn hashed_twice_gives_equal_hashes() {
    let a = Hashed::new(String::from("key"));
    let b = Hashed::new(String::from("key"));
    assert_eq!(a.hash(), b.hash());
    assert!(a.equivalent_to(&b));
    assert!(b.equivalent_to(&a));
    let c = Hashed::new("key");
    assert_eq!(c.hash(), a.hash());
}

#[test]
fn hashed_different_keys_are_not_equivalent() {
    let a = Hashed::new(String::from("a"));
    let b = Hashed::new(String::from("b"));
    assert!(!a.equivalent_to(&b));
    assert!(!b.equivalent_to(&a));
}

#[test]
fn hash_of_u32_keys() {
    assert_eq!(0u32.hash_key().get(), 84696351);
    assert_eq!(7u32.hash_key().get(), 34363494);
    assert_eq!(Hashed::new(7u32).hash(), StarlarkHashValue::new_unchecked(34363494));
}

#[test]
fn hash_of_strings() {
    assert_eq!("".hash_key().get(), 2166136261);
    assert_eq!("a".hash_key().get(), 0xe40c292c);
    assert_eq!(String::from("a").hash_key().get(), 0xe40c292c);
    assert_eq!(StarlarkHashValue::hash_words(&[97]).get(), 0xe40c292c);
}

#[test]
fn borrowed_view_is_equivalent_to_owned_key() {
    let owned = String::from("name");
    assert!("name".equivalent(&owned));
    assert!(!"other".equivalent(&owned));
    assert!(owned.equivalent(&String::from("name")));
    assert!(3u32.equivalent(&3u32));
    assert!(!3u32.equivalent(&4u32));
}

#[test]
fn hashed_into_key_and_unchecked() {
    let h = Hashed::new_unchecked(StarlarkHashValue::new_unchecked(5), 10u32);
    assert_eq!(h.hash().get(), 5);
    assert_eq!(*h.key(), 10);
    assert_eq!(h.into_key(), 10);
}
