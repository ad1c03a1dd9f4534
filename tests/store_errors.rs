use wifblink::store::{
    firmware_region, region_is_valid, Region, Scan, Store, StoreError, ERASE_UNIT, FLASH_START,
};

#[test]
fn count_beyond_region_is_reported() {
    let mut wide = Store::reset_region(0, 2 * ERASE_UNIT).unwrap();
    for i in 0..20u8 {
        wide.append(&[i]).unwrap();
    }
    assert_eq!(wide.count(), Ok(20));
    let mut narrow = Store::with_region(0, ERASE_UNIT).unwrap();
    assert_eq!(narrow.count(), Ok(20));
    assert_eq!(narrow.entries(), Err(StoreError::CountOutOfRange));
    assert_eq!(narrow.append(b"x"), Err(StoreError::CountOutOfRange));
}

#[test]
fn regions_must_be_whole_aligned_units() {
    assert!(region_is_valid(0, ERASE_UNIT));
    assert!(region_is_valid(FLASH_START, FLASH_START + 2 * ERASE_UNIT));
    assert!(!region_is_valid(0, 0));
    assert!(!region_is_valid(ERASE_UNIT, 0));
    assert!(!region_is_valid(1, ERASE_UNIT + 1));
    assert!(!region_is_valid(0, 100));
    assert!(matches!(Store::with_region(0, 100), Err(StoreError::BadRegion)));
    assert!(matches!(Store::reset_region(5, ERASE_UNIT), Err(StoreError::BadRegion)));
    let store = Store::with_region(0, ERASE_UNIT).unwrap();
    assert_eq!(store.region(), Region { start: 0, end: ERASE_UNIT });
}

#[test]
fn device_fault_is_reported() {
    // The emulated flash holds four erase units; a region past them faults.
    let result = Store::reset_region(8 * ERASE_UNIT, 9 * ERASE_UNIT);
    assert!(matches!(result, Err(StoreError::Device)));
}

#[test]
fn scan_finds_committed_payloads_or_the_next_slot() {
    let mut store = Store::reset_region(2 * ERASE_UNIT, 3 * ERASE_UNIT).unwrap();
    assert_eq!(
        store.find_or_next(b"a"),
        Ok(Scan::NextFree { index: 0, offset: 2 * ERASE_UNIT + 4 })
    );
    store.append(b"a").unwrap();
    store.append(b"b").unwrap();
    assert_eq!(store.find_or_next(b"a"), Ok(Scan::Existing));
    assert_eq!(store.find_or_next(b"b"), Ok(Scan::Existing));
    assert_eq!(
        store.find_or_next(b"c"),
        Ok(Scan::NextFree { index: 2, offset: 2 * ERASE_UNIT + 4 + 2 * 256 })
    );
}

#[test]
fn firmware_region_from_capacity() {
    assert_eq!(firmware_region(1 << 20), Some(Region { start: FLASH_START, end: 1 << 20 }));
    assert_eq!(
        firmware_region(FLASH_START as usize + ERASE_UNIT as usize + 5),
        Some(Region { start: FLASH_START, end: FLASH_START + ERASE_UNIT })
    );
    assert_eq!(firmware_region(FLASH_START as usize), None);
    assert_eq!(firmware_region(0), None);
}

#[test]
fn region_past_the_flash_is_refused() {
    // The emulated flash reports a capacity of one mebibyte.
    assert!(matches!(Store::with_region(0, 2 << 20), Err(StoreError::OutsideFlash)));
    assert!(matches!(Store::reset_region(0, 2 << 20), Err(StoreError::OutsideFlash)));
}
