use wifblink::store::{Appended, Store, StoreError};

const UNIT: u32 = 4096;

fn fresh(unit: u32) -> Store {
    Store::reset_region(unit * UNIT, (unit + 1) * UNIT).expect("reset")
}

#[test]
fn reset_then_count_is_zero() {
    let mut store = fresh(0);
    assert_eq!(store.count(), Ok(0));
    assert_eq!(store.entries(), Ok(Vec::<Vec<u8>>::new()));
}

#[test]
fn scenario_reset_then_cafe() {
    let mut store = fresh(1);
    assert_eq!(store.append(b"CafeWifi"), Ok(Appended::Added { index: 0 }));
    assert_eq!(store.count(), Ok(1));
    assert_eq!(store.entries(), Ok(vec![b"CafeWifi".to_vec()]));
}

#[test]
fn scenario_cafe_again_keeps_count() {
    let mut store = fresh(2);
    store.append(b"CafeWifi").unwrap();
    assert_eq!(store.append(b"CafeWifi"), Ok(Appended::Duplicate));
    assert_eq!(store.count(), Ok(1));
    assert_eq!(store.entries(), Ok(vec![b"CafeWifi".to_vec()]));
}

#[test]
fn scenario_guest_listed_first() {
    let mut store = fresh(3);
    store.append(b"CafeWifi").unwrap();
    store.append(b"CafeWifi").unwrap();
    assert_eq!(store.append(b"Guest"), Ok(Appended::Added { index: 1 }));
    assert_eq!(store.count(), Ok(2));
    assert_eq!(store.entries(), Ok(vec![b"Guest".to_vec(), b"CafeWifi".to_vec()]));
    assert_ne!(store.count(), Err(StoreError::Device));
}
