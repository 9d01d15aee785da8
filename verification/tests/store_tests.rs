use move_fuzzer::store::{bytes_eq, ModuleKey, ModuleStore};

fn key(addr: u8, name: &str) -> ModuleKey {
    ModuleKey { address: vec![addr; 32], name: String::from(name) }
}

#[test]
fn the_root_module_is_stored() {
    let store = ModuleStore::new(key(1, "root"), vec![9, 9]);
    assert_eq!(store.get_module(&key(1, "root")), Some(&vec![9, 9]));
}

#[test]
fn lookups_never_fabricate_modules() {
    let store = ModuleStore::new(key(1, "root"), vec![1]);
    assert_eq!(store.get_module(&key(1, "other")), None);
    assert_eq!(store.get_module(&key(2, "root")), None);
}

#[test]
fn inserting_a_duplicate_id_replaces_the_bytes() {
    let mut store = ModuleStore::new(key(1, "root"), vec![1]);
    store.insert(key(2, "dep"), vec![2]);
    store.insert(key(2, "dep"), vec![3]);
    assert_eq!(store.get_module(&key(2, "dep")), Some(&vec![3]));
    assert_eq!(store.entries.len(), 2);
}

#[test]
fn inserting_the_same_module_twice_equals_inserting_it_once() {
    let mut once = ModuleStore::new(key(1, "root"), vec![1]);
    once.insert(key(2, "dep"), vec![7, 8]);
    let mut twice = ModuleStore::new(key(1, "root"), vec![1]);
    twice.insert(key(2, "dep"), vec![7, 8]);
    twice.insert(key(2, "dep"), vec![7, 8]);
    assert_eq!(once.entries, twice.entries);
}

#[test]
fn dependencies_are_added_in_order() {
    let mut store = ModuleStore::new(key(1, "root"), vec![0]);
    store.add_dependencies(vec![
        (key(2, "a"), vec![1]),
        (key(3, "b"), vec![2]),
        (key(2, "a"), vec![9]),
    ]);
    assert_eq!(store.get_module(&key(2, "a")), Some(&vec![9]));
    assert_eq!(store.get_module(&key(3, "b")), Some(&vec![2]));
    assert_eq!(store.entries.len(), 3);
}

#[test]
fn resource_lookups_are_always_absent() {
    let store = ModuleStore::new(key(1, "root"), vec![0]);
    assert_eq!(
        store.get_resource(&vec![0u8; 32], &String::from("Tag")),
        None
    );
}

#[test]
fn key_equality_compares_address_and_name() {
    assert!(key(1, "m").key_eq(&key(1, "m")));
    assert!(!key(1, "m").key_eq(&key(2, "m")));
    assert!(!key(1, "m").key_eq(&key(1, "n")));
}

#[test]
fn byte_equality_is_exact() {
    assert!(bytes_eq(&vec![], &vec![]));
    assert!(bytes_eq(&vec![1, 2], &vec![1, 2]));
    assert!(!bytes_eq(&vec![1, 2], &vec![1, 3]));
    assert!(!bytes_eq(&vec![1, 2], &vec![1, 2, 3]));
}
