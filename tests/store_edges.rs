use wifblink::store::{Appended, Command, Reply, Store, StoreError};
use wifblink::text::DumpLine;

const UNIT: u32 = 4096;

fn fresh(unit: u32) -> Store {
    Store::reset_region(unit * UNIT, (unit + 1) * UNIT).expect("reset")
}

#[test]
fn dump_marks_invalid_text_and_lists_the_rest() {
    let mut store = fresh(0);
    store.append(b"Home").unwrap();
    store.append(&[0xff, 0xfe, b'x']).unwrap();
    store.append("Caf\u{e9}".as_bytes()).unwrap();
    let lines = store.dump().unwrap();
    assert_eq!(
        lines,
        vec![
            DumpLine::Text("Caf\u{e9}".to_string()),
            DumpLine::Invalid(vec![0xff, 0xfe, b'x']),
            DumpLine::Text("Home".to_string()),
        ]
    );
}

#[test]
fn commands_from_two_producers_count_distinct_payloads() {
    let mut store = fresh(1);
    let first = ["a", "b", "c", "a"];
    let second = ["c", "d", "b"];
    let mut merged: Vec<&str> = Vec::new();
    for i in 0..4 {
        if i < first.len() {
            merged.push(first[i]);
        }
        if i < second.len() {
            merged.push(second[i]);
        }
    }
    for name in merged {
        let reply = store.handle(Command::Append(name.as_bytes().to_vec())).unwrap();
        assert!(matches!(reply, Reply::Appended(_)));
    }
    assert_eq!(store.count(), Ok(4));
    let listing = store.handle(Command::Dump).unwrap();
    assert_eq!(
        listing,
        Reply::Listing(vec![
            DumpLine::Text("d".to_string()),
            DumpLine::Text("b".to_string()),
            DumpLine::Text("c".to_string()),
            DumpLine::Text("a".to_string()),
        ])
    );
}

#[test]
fn full_region_refuses_new_payloads() {
    let mut store = fresh(2);
    for i in 0..15u8 {
        assert_eq!(store.append(&[b'n', i]), Ok(Appended::Added { index: i as u32 }));
    }
    assert_eq!(store.append(b"one more"), Err(StoreError::RegionFull));
    assert_eq!(store.append(&[b'n', 3]), Ok(Appended::Duplicate));
    assert_eq!(store.count(), Ok(15));
}

#[test]
fn log_survives_reopening() {
    let mut store = fresh(3);
    store.append(b"kept").unwrap();
    drop(store);
    let mut again = Store::with_region(3 * UNIT, 4 * UNIT).unwrap();
    assert_eq!(again.entries(), Ok(vec![b"kept".to_vec()]));
    assert_eq!(again.handle(Command::Append(vec![0u8; 256])), Err(StoreError::PayloadTooLong));
}
