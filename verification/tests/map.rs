use quickfall::commons::utils::map::HashedMap;

#[test]
fn put_then_get_returns_the_value() {
    let mut map: HashedMap<u32> = HashedMap::new(4);
    map.put(42, 7);
    assert_eq!(map.get(42), Some(&7));
    map.put(42, 9);
    assert_eq!(map.get(42), Some(&9));
    assert_eq!(map.get(43), None);
}

#[test]
fn put_under_one_hash_leaves_the_others() {
    let mut map: HashedMap<&str> = HashedMap::new(8);
    map.put(1, "one");
    map.put(2, "two");
    map.put(1, "uno");
    assert_eq!(map.get(2), Some(&"two"));
    assert_eq!(map.get(1), Some(&"uno"));
}

#[test]
fn colliding_hashes_are_kept_apart() {
    // 3 and 11 start probing at the same bucket of eight, and both have the
    // fingerprint zero.
    let mut map: HashedMap<u8> = HashedMap::new(8);
    assert_eq!(map.index_from_hash(3), map.index_from_hash(11));
    assert_eq!(map.fingerprint_from_hash(3), map.fingerprint_from_hash(11));
    map.put(3, 30);
    map.put(11, 110);
    assert_eq!(map.get(3), Some(&30));
    assert_eq!(map.get(11), Some(&110));
}

#[test]
fn erased_hash_stays_absent_when_its_bucket_is_reused() {
    let mut map: HashedMap<u8> = HashedMap::new(8);
    map.put(3, 30);
    map.put(11, 110);
    map.erase(3);
    assert_eq!(map.get(3), None);
    assert_eq!(map.get(11), Some(&110));
    // 19 collides with both and takes the tombstone of 3.
    map.put(19, 190);
    assert_eq!(map.get(3), None);
    assert_eq!(map.get(11), Some(&110));
    assert_eq!(map.get(19), Some(&190));
}

#[test]
fn erase_of_an_absent_hash_changes_nothing() {
    let mut map: HashedMap<u8> = HashedMap::new(2);
    map.put(5, 50);
    map.erase(6);
    assert_eq!(map.get(5), Some(&50));
    assert_eq!(map.entries().len(), 1);
}

#[test]
fn resize_keeps_every_live_entry() {
    let mut map: HashedMap<u64> = HashedMap::new(2);
    let mut hash: u64 = 0x9E37_79B9_7F4A_7C15;
    let mut keys = vec![];
    for i in 0..200u64 {
        hash = hash.wrapping_mul(6364136223846793005).wrapping_add(1442695040888963407);
        keys.push(hash);
        map.put(hash, i);
        assert!(!map.check_for_map_load());
    }
    for (i, key) in keys.iter().enumerate() {
        assert_eq!(map.get(*key), Some(&(i as u64)));
    }
    assert_eq!(map.entries().len(), 200);
}

#[test]
fn new_rounds_the_capacity_up_to_a_power_of_two() {
    let map: HashedMap<u8> = HashedMap::new(5);
    // With eight buckets the index is the low three bits of the hash.
    assert_eq!(map.index_from_hash(0b1011_0110), 0b110);
    let one: HashedMap<u8> = HashedMap::new(0);
    assert_eq!(one.index_from_hash(u64::MAX), 0);
}

#[test]
fn fingerprint_is_the_seven_high_bits() {
    let map: HashedMap<u8> = HashedMap::new(1);
    assert_eq!(map.fingerprint_from_hash(u64::MAX), 127);
    assert_eq!(map.fingerprint_from_hash(1u64 << 57), 1);
    assert_eq!(map.fingerprint_from_hash((1u64 << 57) - 1), 0);
}

#[test]
fn entries_hold_each_live_entry_once() {
    let mut map: HashedMap<char> = HashedMap::new(4);
    map.put(10, 'a');
    map.put(20, 'b');
    map.put(30, 'c');
    map.erase(20);
    let mut seen: Vec<(u64, char)> = map.entries().into_iter().map(|e| *e).collect();
    seen.sort();
    assert_eq!(seen, vec![(10, 'a'), (30, 'c')]);
}

#[test]
fn load_check_is_false_on_a_fresh_map() {
    let map: HashedMap<u8> = HashedMap::new(16);
    assert!(!map.check_for_map_load());
}
