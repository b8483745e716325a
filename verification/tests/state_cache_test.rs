use blockifier::cell_map::CellMap;
use blockifier::error::StateError;
use blockifier::felt::{
    ClassHash, ContractAddress, ContractStorageKey, Nonce, StarkFelt, StorageKey,
};
use blockifier::state_cache::{LayeredCache, StateCache};

fn small(value: u8) -> StarkFelt {
    let mut bytes = [0u8; 32];
    bytes[31] = value;
    StarkFelt::new(bytes).unwrap()
}

#[test]
fn cell_map_holds_the_last_value_of_each_key() {
    let mut map: CellMap<ContractAddress, Nonce> = CellMap::new();
    let first = ContractAddress(small(1));
    let second = ContractAddress(small(2));

    assert_eq!(map.len(), 0);
    assert!(!map.contains_key(&first));
    assert_eq!(map.get(&first), None);
    map.insert(first, Nonce(small(10)));
    map.insert(second, Nonce(small(20)));
    map.insert(first, Nonce(small(11)));

    assert_eq!(map.len(), 2);
    assert!(map.contains_key(&first));
    assert!(map.contains_key(&second));
    assert!(!map.contains_key(&ContractAddress(small(3))));
    assert_eq!(map.get(&first), Some(&Nonce(small(11))));
    assert_eq!(map.get(&second), Some(&Nonce(small(20))));
    assert_eq!(map.entry_at(0), Some((first, Nonce(small(11)))));
    assert_eq!(map.entry_at(1), Some((second, Nonce(small(20)))));
    assert_eq!(map.entry_at(2), None);
}

#[test]
fn layered_cache_reads_writes_before_initial_values() {
    let mut cache: LayeredCache<ContractAddress, Nonce> = LayeredCache::new();
    let address = ContractAddress(small(1));

    assert_eq!(cache.read(&address), None);
    cache.record_initial(address, Nonce(small(5)));
    assert_eq!(cache.read(&address), Some(&Nonce(small(5))));
    cache.record_write(address, Nonce(small(6)));
    assert_eq!(cache.read(&address), Some(&Nonce(small(6))));
    cache.record_initial(address, Nonce(small(7)));
    assert_eq!(cache.read(&address), Some(&Nonce(small(6))));
}

#[test]
fn first_initial_value_wins() {
    let mut cache: LayeredCache<ContractAddress, Nonce> = LayeredCache::new();
    let address = ContractAddress(small(1));

    cache.record_initial(address, Nonce(small(5)));
    cache.record_initial(address, Nonce(small(6)));

    assert_eq!(cache.read(&address), Some(&Nonce(small(5))));
    cache.record_write(address, Nonce(small(9)));
    let diff = cache.diff(Nonce::default());
    assert_eq!(diff.len(), 1);
    assert_eq!(diff[0].before, Nonce(small(5)));
    assert_eq!(diff[0].after, Nonce(small(9)));
}

#[test]
fn initial_value_recorded_after_a_write_is_the_before_value() {
    let mut cache: LayeredCache<ContractAddress, Nonce> = LayeredCache::new();
    let address = ContractAddress(small(1));

    cache.record_write(address, Nonce(small(9)));
    cache.record_initial(address, Nonce(small(5)));

    assert_eq!(cache.read(&address), Some(&Nonce(small(9))));
    let diff = cache.diff(Nonce::default());
    assert_eq!(diff.len(), 1);
    assert_eq!(diff[0].before, Nonce(small(5)));
    assert_eq!(diff[0].after, Nonce(small(9)));
}

#[test]
fn diff_uses_the_given_uninitialized_value() {
    let mut cache: LayeredCache<ContractAddress, Nonce> = LayeredCache::new();
    let address = ContractAddress(small(1));

    cache.record_write(address, Nonce(small(9)));

    let diff = cache.diff(Nonce(small(0x33)));
    assert_eq!(diff.len(), 1);
    assert_eq!(diff[0].key, address);
    assert_eq!(diff[0].before, Nonce(small(0x33)));
    assert_eq!(diff[0].after, Nonce(small(9)));
}

#[test]
fn unresolved_cell_is_an_integrity_violation() {
    let mut cache: LayeredCache<ContractAddress, Nonce> = LayeredCache::new();
    let address = ContractAddress(small(1));

    assert_eq!(cache.read_resolved(&address), Err(StateError::CacheIntegrityViolation));
    cache.record_initial(address, Nonce(small(5)));
    assert_eq!(cache.read_resolved(&address), Ok(&Nonce(small(5))));
    assert_eq!(
        cache.read_resolved(&ContractAddress(small(2))),
        Err(StateError::CacheIntegrityViolation)
    );
}

#[test]
fn state_cache_keeps_storage_layers_apart() {
    let mut cache = StateCache::new();
    let address = ContractAddress(small(1));
    let key = StorageKey(small(2));

    assert_eq!(cache.get_storage_at(address, key), None);
    cache.set_storage_initial_values(address, key, small(5));
    assert_eq!(cache.get_storage_at(address, key), Some(&small(5)));
    cache.set_storage_initial_values(address, key, small(6));
    assert_eq!(cache.get_storage_at(address, key), Some(&small(5)));
    cache.set_storage_writes(address, key, small(7));
    assert_eq!(cache.get_storage_at(address, key), Some(&small(7)));

    let diff = cache.diff();
    assert_eq!(diff.storage.len(), 1);
    assert_eq!(diff.storage[0].key, ContractStorageKey(address, key));
    assert_eq!(diff.storage[0].before, small(5));
    assert_eq!(diff.storage[0].after, small(7));
}

#[test]
fn state_cache_handles_nonces_and_class_hashes_alike() {
    let mut cache = StateCache::default();
    let address = ContractAddress(small(1));

    assert_eq!(cache.get_nonce_at(address), None);
    assert_eq!(cache.get_class_hash_at(address), None);
    cache.set_nonce_initial_values(address, Nonce(small(1)));
    cache.set_nonce_initial_values(address, Nonce(small(2)));
    cache.set_class_hash_writes(address, ClassHash(small(3)));
    cache.set_class_hash_initial_values(address, ClassHash(small(4)));
    cache.set_nonce_writes(address, Nonce(small(5)));

    assert_eq!(cache.get_nonce_at(address), Some(&Nonce(small(5))));
    assert_eq!(cache.get_class_hash_at(address), Some(&ClassHash(small(3))));
    let diff = cache.diff();
    assert!(diff.storage.is_empty());
    assert_eq!(diff.nonces.len(), 1);
    assert_eq!(diff.nonces[0].before, Nonce(small(1)));
    assert_eq!(diff.nonces[0].after, Nonce(small(5)));
    assert_eq!(diff.class_hashes.len(), 1);
    assert_eq!(diff.class_hashes[0].before, ClassHash(small(4)));
    assert_eq!(diff.class_hashes[0].after, ClassHash(small(3)));
}
