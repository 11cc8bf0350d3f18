use std::rc::Rc;

use multimap::harness;
use multimap::idx;
use multimap::rc::Ext;

#[test]
fn indexed_insert_then_get() {
    let mut map: idx::MultiMap<String, String> = idx::MultiMap::new();
    let handle = map.new_v(String::from("value"));
    map.insert(String::from("key"), handle);
    assert_eq!(map.get(&String::from("key")), Some(&String::from("value")));
}

#[test]
fn indexed_second_insert_wins() {
    let mut map: idx::MultiMap<String, String> = idx::MultiMap::new();
    let first = map.new_v(String::from("one"));
    let second = map.new_v(String::from("two"));
    map.insert(String::from("key"), first);
    map.insert(String::from("key"), second);
    assert_eq!(map.get(&String::from("key")), Some(&String::from("two")));
}

#[test]
fn indexed_get_on_missing_key() {
    let mut map: idx::MultiMap<String, String> = idx::MultiMap::new();
    assert_eq!(map.get(&String::from("key")), None);
    let handle = map.new_v(String::from("value"));
    map.insert(String::from("key"), handle);
    assert_eq!(map.get(&String::from("other")), None);
}

#[test]
fn indexed_dangling_handle_is_a_miss() {
    let mut map: idx::MultiMap<String, String> = idx::MultiMap::new();
    map.insert(String::from("key"), 42);
    assert_eq!(map.get(&String::from("key")), None);
}

#[test]
fn indexed_handles_start_at_zero_and_increase() {
    let mut map: idx::MultiMap<String, String> = idx::MultiMap::new();
    assert_eq!(map.next_handle(), 0);
    let h0 = map.new_v(String::from("a"));
    let h1 = map.new_v(String::from("b"));
    let h2 = map.new_v(String::from("c"));
    assert_eq!(h0, 0);
    assert_eq!(h1, 1);
    assert_eq!(h2, 2);
    assert_eq!(map.next_handle(), 3);
}

#[test]
fn indexed_end_to_end() {
    let mut map: idx::MultiMap<String, String> = idx::MultiMap::new();
    let handle = map.new_v(String::from("value"));
    assert_eq!(handle, 0);
    for _ in 0..4000 {
        map.insert(String::from("key"), handle);
    }
    assert_eq!(map.get(&String::from("key")), Some(&String::from("value")));
    let second = map.new_v(String::from("value2"));
    assert_eq!(second, 1);
}

#[test]
fn shared_insert_then_get() {
    let mut map: multimap::rc::MultiMap<String, String> = multimap::rc::MultiMap::new();
    let handle = map.new_v(String::from("value"));
    map.insert_r(String::from("key"), &handle);
    let found = map.get(&String::from("key")).expect("key was bound");
    assert_eq!(**found, *"value");
}

#[test]
fn shared_second_insert_wins() {
    let mut map: multimap::rc::MultiMap<String, String> = multimap::rc::MultiMap::new();
    let first = map.new_v(String::from("one"));
    let second = map.new_v(String::from("two"));
    map.insert_r(String::from("key"), &first);
    map.insert_r(String::from("key"), &second);
    let found = map.get(&String::from("key")).expect("key was bound");
    assert_eq!(**found, *"two");
}

#[test]
fn shared_get_on_missing_key() {
    let mut map: multimap::rc::MultiMap<String, String> = multimap::rc::MultiMap::new();
    assert!(map.get(&String::from("key")).is_none());
    let handle = map.new_v(String::from("value"));
    map.insert_r(String::from("key"), &handle);
    assert!(map.get(&String::from("other")).is_none());
}

#[test]
fn shared_insert_bumps_reference_count() {
    let mut map: multimap::rc::MultiMap<String, String> = multimap::rc::MultiMap::new();
    let handle = map.new_v(String::from("value"));
    assert_eq!(Rc::strong_count(&handle), 1);
    map.insert_r(String::from("a"), &handle);
    map.insert_r(String::from("b"), &handle);
    assert_eq!(Rc::strong_count(&handle), 3);
}

#[test]
fn shared_value_released_after_overwrite() {
    let mut map: multimap::rc::MultiMap<String, String> = multimap::rc::MultiMap::new();
    let original = map.new_v(String::from("old"));
    let watcher = Rc::downgrade(&original);
    let keys = [String::from("a"), String::from("b"), String::from("c")];
    for key in keys.iter() {
        map.insert_r(key.clone(), &original);
    }
    assert_eq!(Rc::strong_count(&original), 4);
    let replacement = map.new_v(String::from("new"));
    for key in keys.iter() {
        map.insert_r(key.clone(), &replacement);
    }
    assert_eq!(Rc::strong_count(&original), 1);
    drop(original);
    assert!(watcher.upgrade().is_none());
    for key in keys.iter() {
        let found = map.get(key).expect("key was rebound");
        assert_eq!(**found, *"new");
    }
}

#[test]
fn shared_end_to_end() {
    let mut map: multimap::rc::MultiMap<String, String> = multimap::rc::MultiMap::new();
    let handle = map.new_v(String::from("value"));
    for _ in 0..4000 {
        map.insert_r(String::from("key"), &handle);
    }
    let found = map.get(&String::from("key")).expect("key was bound");
    assert_eq!(**found, *"value");
    assert_eq!(Rc::strong_count(&handle), 2);
}

#[test]
fn harness_indexed_round() {
    let mut map: idx::MultiMap<String, String> = idx::MultiMap::new();
    let handle = harness::indexed_round(&mut map, "key", String::from("value"), 4000);
    assert_eq!(handle, 0);
    assert_eq!(map.next_handle(), 1);
    assert_eq!(map.get(&String::from("key")), Some(&String::from("value")));
    let again = harness::indexed_round(&mut map, "key", String::from("value2"), 4000);
    assert_eq!(again, 1);
    assert_eq!(map.get(&String::from("key")), Some(&String::from("value2")));
}

#[test]
fn harness_indexed_round_of_zero_binds_nothing() {
    let mut map: idx::MultiMap<String, String> = idx::MultiMap::new();
    let handle = harness::indexed_round(&mut map, "key", String::from("value"), 0);
    assert_eq!(handle, 0);
    assert_eq!(map.next_handle(), 1);
    assert_eq!(map.get(&String::from("key")), None);
}

#[test]
fn harness_shared_round() {
    let mut map: multimap::rc::MultiMap<String, String> = multimap::rc::MultiMap::new();
    let handle = harness::shared_round(&mut map, "key", String::from("value"), 4000);
    assert_eq!(*handle, *"value");
    assert_eq!(Rc::strong_count(&handle), 2);
    let found = map.get(&String::from("key")).expect("key was bound");
    assert_eq!(**found, *"value");
}
