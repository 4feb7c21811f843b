use email_bloom::filter::{BloomFilter, Exists, FilterError};
use email_bloom::state::{
    availability_status, load_state, needs_lookup, register, StoreRead, STATE_KEY,
};
use std::collections::HashMap;

/// The analytic false-positive estimate, in percent, of a 128-bit,
/// two-hash filter after `n` insertions.
fn false_positive_percent(n: usize) -> f32 {
    100.0 * (1.0 - (1.0 - 1.0 / 128 as f32).powf(2.0 * n as f32)).powf(2.0)
}

#[test]
fn api_check() {
    let mut filter = BloomFilter::new();
    filter.insert("hello");
    assert_eq!(filter.query("hello"), Exists::Maybe);
    assert_eq!(filter.query("hallo"), Exists::No);
    assert_eq!(false_positive_percent(filter.insertions()), 0.0242237);
}

#[test]
fn fresh_filter_answers_no() {
    let filter = BloomFilter::new();
    for key in ["", "a", "hello", "hallo", "someone@example.com", "x".repeat(1000).as_str()] {
        assert_eq!(filter.query(key), Exists::No);
    }
    assert_eq!(filter.insertions(), 0);
    assert_eq!(filter.to_bytes(), vec![0u8; 16]);
}

#[test]
fn inserted_keys_stay_possibly_present() {
    let keys = ["a@b.c", "", "hello", "hallo", "ünïcödé", "z"];
    let mut filter = BloomFilter::new();
    for (i, key) in keys.iter().enumerate() {
        filter.insert(key);
        assert_eq!(filter.query(key), Exists::Maybe);
        assert_eq!(filter.insertions(), i + 1);
        for earlier in &keys[..i] {
            assert_eq!(filter.query(earlier), Exists::Maybe);
        }
    }
}

#[test]
fn round_trip_keeps_bits() {
    let mut filter = BloomFilter::new();
    for key in ["alice@example.com", "bob@example.com", "hello"] {
        filter.insert(key);
    }
    let bytes = filter.to_bytes();
    assert_eq!(bytes.len(), 16);
    assert_ne!(bytes, vec![0u8; 16]);
    let decoded = BloomFilter::from_vec(bytes.clone()).unwrap();
    assert_eq!(decoded.to_bytes(), bytes);
    assert_eq!(decoded.insertions(), 0);
    for key in ["alice@example.com", "bob@example.com", "hello", "hallo", "carol"] {
        assert_eq!(decoded.query(key), filter.query(key));
    }
}

#[test]
fn bytes_round_trip_exactly() {
    let bytes: Vec<u8> = (0u8..16).map(|i| i.wrapping_mul(37).wrapping_add(5)).collect();
    let filter = BloomFilter::from_vec(bytes.clone()).unwrap();
    assert_eq!(filter.to_bytes(), bytes);
}

#[test]
fn full_filter_answers_maybe() {
    let filter = BloomFilter::from_vec(vec![0xff; 16]).unwrap();
    for key in ["", "hello", "hallo", "anything"] {
        assert_eq!(filter.query(key), Exists::Maybe);
    }
}

#[test]
fn wrong_lengths_are_corrupt() {
    for len in [0usize, 1, 15, 17, 32] {
        assert_eq!(BloomFilter::from_vec(vec![0u8; len]).err(), Some(FilterError::CorruptState));
    }
    assert!(BloomFilter::from_vec(vec![0u8; 16]).is_ok());
}

#[test]
fn load_missing_gives_fresh_filter() {
    let filter = load_state(StoreRead::Missing).unwrap();
    assert_eq!(filter.to_bytes(), vec![0u8; 16]);
    assert_eq!(filter.query("hello"), Exists::No);
}

#[test]
fn load_errors() {
    assert_eq!(load_state(StoreRead::Failed).err(), Some(FilterError::StoreUnavailable));
    assert_eq!(load_state(StoreRead::Found(vec![1, 2, 3])).err(), Some(FilterError::CorruptState));
    assert_eq!(register(StoreRead::Failed, "a").err(), Some(FilterError::StoreUnavailable));
    assert_eq!(register(StoreRead::Found(vec![0u8; 17]), "a").err(), Some(FilterError::CorruptState));
}

#[test]
fn register_inserts_into_stored_state() {
    let first = register(StoreRead::Missing, "hello").unwrap();
    let filter = BloomFilter::from_vec(first.clone()).unwrap();
    assert_eq!(filter.query("hello"), Exists::Maybe);
    assert_eq!(filter.query("hallo"), Exists::No);
    let second = register(StoreRead::Found(first), "hallo").unwrap();
    let filter = BloomFilter::from_vec(second).unwrap();
    assert_eq!(filter.query("hello"), Exists::Maybe);
    assert_eq!(filter.query("hallo"), Exists::Maybe);
}

#[test]
fn concurrent_registrations_lose_an_update() {
    // Both registrations read the same stored state before either writes.
    let base = BloomFilter::new().to_bytes();
    let first_write = register(StoreRead::Found(base.clone()), "hello").unwrap();
    let second_write = register(StoreRead::Found(base), "hallo").unwrap();
    let mut store: HashMap<&str, Vec<u8>> = HashMap::new();
    store.insert(STATE_KEY, first_write);
    store.insert(STATE_KEY, second_write.clone());
    let stored = store.remove(STATE_KEY).unwrap();
    assert_eq!(stored, second_write);
    let filter = load_state(StoreRead::Found(stored)).unwrap();
    assert_eq!(filter.query("hallo"), Exists::Maybe);
    assert_eq!(filter.query("hello"), Exists::No);
}

#[test]
fn availability_decisions() {
    assert!(!needs_lookup(Exists::No));
    assert!(needs_lookup(Exists::Maybe));
    assert_eq!(availability_status(Exists::No, false), 200);
    assert_eq!(availability_status(Exists::No, true), 200);
    assert_eq!(availability_status(Exists::Maybe, false), 200);
    assert_eq!(availability_status(Exists::Maybe, true), 409);
}

#[test]
fn estimate_grows_with_insertions() {
    assert_eq!(false_positive_percent(0), 0.0);
    let mut filter = BloomFilter::new();
    filter.insert("a");
    filter.insert("b");
    assert_eq!(filter.insertions(), 2);
    assert!(false_positive_percent(2) > false_positive_percent(1));
}
