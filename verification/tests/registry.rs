use std::cell::Cell;
use tinymetrics::Registry;
use tinymetrics::RegistryMap;

#[test]
fn capacity_boundary() {
    // A store of capacity 3 accepts exactly 3 claims, hands out the
    // indices 0, 1, 2, and returns the fourth value unchanged.
    let mut r: Registry<&'static str, 3> = Registry::new();
    assert!(r.is_empty());
    assert_eq!(r.capacity(), 3);
    assert_eq!(r.remaining_capacity(), 3);

    assert_eq!(r.try_register("foo"), Ok(0));
    assert_eq!(r.try_register("bar"), Ok(1));
    assert!(!r.is_full());
    assert_eq!(r.try_register("baz"), Ok(2));
    assert_eq!(r.len(), 3);
    assert!(r.is_full());
    assert_eq!(r.remaining_capacity(), 0);

    assert_eq!(r.try_register("womble"), Err("womble"));
    // The rejection left every slot and the length as they were.
    assert_eq!(r.len(), 3);
    assert_eq!(r.get(0), Some(&"foo"));
    assert_eq!(r.get(1), Some(&"bar"));
    assert_eq!(r.get(2), Some(&"baz"));
    assert_eq!(r.get(3), None);
}

#[test]
fn claimed_values_read_back_whole() {
    // A structured value read back from a claimed slot is exactly the
    // value that was written, field for field.
    let mut r: Registry<(u64, &'static str, bool), 2> = Registry::new();
    let idx = r.register((407, "claims", true));
    assert_eq!(idx, 0);
    assert_eq!(r.get(idx), Some(&(407, "claims", true)));
    // A later claim leaves the earlier slot untouched.
    let idx2 = r.register((9, "more", false));
    assert_eq!(idx2, 1);
    assert_eq!(r.get(0), Some(&(407, "claims", true)));
    let all = r.iter();
    assert_eq!(all.len(), 2);
    assert_eq!(*all[0], (407, "claims", true));
    assert_eq!(*all[1], (9, "more", false));
}

#[test]
fn register_default_claims_default_value() {
    let mut r: Registry<u64, 2> = Registry::new();
    assert_eq!(r.try_register_default(), Some(0));
    assert_eq!(r.get(0), Some(&0));
    assert_eq!(r.try_register_default(), Some(1));
    assert_eq!(r.try_register_default(), None);
}

#[test]
fn map_idempotent_lookup() {
    // Looking a key up twice, with no intervening insert, returns the same
    // slot and never evaluates the second initializer.
    let mut m: RegistryMap<String, u64, 4> = RegistryMap::new();
    let calls = Cell::new(0u32);
    let first = m.get_or_register_with("answer".to_string(), || {
        calls.set(calls.get() + 1);
        42
    });
    assert_eq!(first, Some(0));
    assert_eq!(calls.get(), 1);

    let second = m.get_or_register_with("answer".to_string(), || {
        calls.set(calls.get() + 1);
        0
    });
    assert_eq!(second, Some(0));
    // The initializer of the second call never ran.
    assert_eq!(calls.get(), 1);
    assert_eq!(m.value_at(0), &42);
    assert_eq!(m.len(), 1);
}

#[test]
fn map_get_or_register() {
    let mut m: RegistryMap<String, u64, 2> = RegistryMap::new();
    assert_eq!(m.get_or_register("a".to_string(), 7), Some(0));
    assert_eq!(m.get_or_register("a".to_string(), 9), Some(0));
    assert_eq!(m.value_at(0), &7);
    assert_eq!(m.get_or_register("b".to_string(), 8), Some(1));
    assert!(m.is_full());
    assert_eq!(m.get_or_register("c".to_string(), 9), None);
    assert_eq!(m.len(), 2);
    assert_eq!(m.capacity(), 2);
    assert_eq!(m.remaining_capacity(), 0);
}

#[test]
fn map_get_or_register_default() {
    let mut m: RegistryMap<String, u64, 2> = RegistryMap::new();
    assert!(m.is_empty());
    assert_eq!(m.get_or_register_default("foo".to_string()), Some(0));
    assert_eq!(m.value_at(0), &0);
    assert_eq!(m.get_or_register("foo".to_string(), 1), Some(0));
    assert_eq!(m.value_at(0), &0);
}

#[test]
fn map_iteration_orders_by_claim() {
    let mut m: RegistryMap<String, u64, 4> = RegistryMap::new();
    m.get_or_register("x".to_string(), 1);
    m.get_or_register("y".to_string(), 2);
    m.get_or_register("z".to_string(), 3);

    let keys = m.keys();
    assert_eq!(keys, [&"x".to_string(), &"y".to_string(), &"z".to_string()]);
    let values = m.values();
    assert_eq!(values, [&1, &2, &3]);
    let entries = m.iter();
    assert_eq!(entries.len(), 3);
    assert_eq!(entries[0], (&"x".to_string(), &1));
    assert_eq!(entries[2], (&"z".to_string(), &3));
    assert_eq!(m.key_at(1), &"y".to_string());
    assert_eq!(m.value_at(1), &2);
}

#[test]
fn map_value_update_keeps_keys() {
    let mut m: RegistryMap<String, u64, 2> = RegistryMap::new();
    m.get_or_register("k".to_string(), 5);
    *m.value_at_mut(0) = 6;
    assert_eq!(m.key_at(0), &"k".to_string());
    assert_eq!(m.value_at(0), &6);
}
