use wifblink::store::{Appended, Store, StoreError};

const UNIT: u32 = 4096;

fn fresh(unit: u32) -> Store {
    Store::reset_region(unit * UNIT, (unit + 1) * UNIT).expect("reset")
}

#[test]
fn two_distinct_appends_newest_first() {
    let mut store = fresh(0);
    store.append(b"alpha").unwrap();
    store.append(b"beta").unwrap();
    assert_eq!(store.entries(), Ok(vec![b"beta".to_vec(), b"alpha".to_vec()]));
    assert_eq!(store.count(), Ok(2));
}

#[test]
fn repeat_append_counts_once() {
    let mut store = fresh(1);
    store.append(b"same").unwrap();
    store.append(b"same").unwrap();
    assert_eq!(store.count(), Ok(1));
}

#[test]
fn empty_payload_round_trips() {
    let mut store = fresh(2);
    assert_eq!(store.append(b""), Ok(Appended::Added { index: 0 }));
    assert_eq!(store.entries(), Ok(vec![Vec::new()]));
    assert_eq!(store.append(b""), Ok(Appended::Duplicate));
}

#[test]
fn longest_payload_round_trips_and_longer_is_refused() {
    let mut store = fresh(3);
    let longest: Vec<u8> = (0..255u32).map(|i| (i * 7 % 256) as u8).collect();
    assert_eq!(store.append(&longest), Ok(Appended::Added { index: 0 }));
    assert_eq!(store.entries(), Ok(vec![longest.clone()]));
    let mut too_long = longest.clone();
    too_long.push(1);
    assert_eq!(store.append(&too_long), Err(StoreError::PayloadTooLong));
    assert_eq!(store.count(), Ok(1));
    assert_eq!(store.entries(), Ok(vec![longest]));
}
