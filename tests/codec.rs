use wifblink::layout::{
    decode_count, decode_slot, encode_count, encode_record, newest_first, same_payload, SLOT_LEN,
};
use wifblink::text::{dump_line, dump_lines, line_from, DumpLine};

fn slot_with(payload: &[u8]) -> Vec<u8> {
    let mut slot = vec![0xaau8; SLOT_LEN];
    slot[0] = payload.len() as u8;
    slot[1..1 + payload.len()].copy_from_slice(payload);
    slot
}

#[test]
fn header_is_little_endian() {
    assert_eq!(encode_count(0x0102_0304), vec![4, 3, 2, 1]);
    assert_eq!(encode_count(0), vec![0, 0, 0, 0]);
    assert_eq!(decode_count(&[4, 3, 2, 1]), 0x0102_0304);
    assert_eq!(decode_count(&[0xff, 0xff, 0xff, 0xff]), u32::MAX);
    assert_eq!(decode_count(&encode_count(300)), 300);
}

#[test]
fn record_is_length_then_payload() {
    assert_eq!(encode_record(b"abc"), Some(vec![3, b'a', b'b', b'c']));
    assert_eq!(encode_record(b""), Some(vec![0]));
    assert_eq!(encode_record(&[7u8; 255]).map(|r| r.len()), Some(256));
    assert_eq!(encode_record(&[7u8; 256]), None);
}

#[test]
fn slot_decodes_its_payload_only() {
    assert_eq!(decode_slot(&slot_with(b"net")), b"net".to_vec());
    assert_eq!(decode_slot(&slot_with(b"")), Vec::<u8>::new());
    let long = [9u8; 255];
    assert_eq!(decode_slot(&slot_with(&long)), long.to_vec());
    assert!(same_payload(&slot_with(b"net"), b"net"));
    assert!(!same_payload(&slot_with(b"net"), b"nets"));
    assert!(!same_payload(&slot_with(b"net"), b"nat"));
}

#[test]
fn slots_listed_newest_first() {
    let slots = vec![slot_with(b"first"), slot_with(b"second"), slot_with(b"third")];
    assert_eq!(
        newest_first(&slots),
        vec![b"third".to_vec(), b"second".to_vec(), b"first".to_vec()]
    );
    assert_eq!(newest_first(&Vec::new()), Vec::<Vec<u8>>::new());
}

#[test]
fn text_lines_mark_invalid_records() {
    assert_eq!(dump_line(b"Guest".to_vec()), DumpLine::Text("Guest".to_string()));
    assert_eq!(dump_line(vec![0xc3]), DumpLine::Invalid(vec![0xc3]));
    assert_eq!(dump_line(vec![0xc3, 0xa9]), DumpLine::Text("\u{e9}".to_string()));
    assert_eq!(
        dump_lines(vec![vec![0x80], b"ok".to_vec()]),
        vec![DumpLine::Invalid(vec![0x80]), DumpLine::Text("ok".to_string())]
    );
    assert_eq!(line_from(vec![0x80], None), DumpLine::Invalid(vec![0x80]));
    assert_eq!(line_from(b"a".to_vec(), Some("a".to_string())), DumpLine::Text("a".to_string()));
}
