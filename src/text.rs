//! Best-effort text rendering of stored records for display.
use vstd::prelude::*;
use vstd::utf8::{decode_utf8, valid_utf8};

verus! {

/// One record as a listing shows it.
#[derive(Clone, Debug, PartialEq, Eq)]
pub enum DumpLine {
    /// The record is valid UTF-8; this is its text.
    Text(String),
    /// The record is not valid UTF-8; these are its raw bytes.
    Invalid(Vec<u8>),
}

/// Whether `line` is how a listing shows the record `raw`.
pub open spec fn describes(line: DumpLine, raw: Seq<u8>) -> bool {
    match line {
        DumpLine::Text(s) => valid_utf8(raw) && s@ == decode_utf8(raw),
        DumpLine::Invalid(b) => !valid_utf8(raw) && b@ == raw,
    }
}

/// Relies on `core::str::from_utf8`: it succeeds exactly on valid UTF-8, and
/// the text then holds the characters the bytes encode.
#[verifier::external_body]
fn utf8_text(bytes: &[u8]) -> (r: Option<String>)
    ensures
        r is Some <==> valid_utf8(bytes@),
        r matches Some(s) ==> s@ == decode_utf8(bytes@),
{
    core::str::from_utf8(bytes).ok().map(|s| s.to_string())
}

/// The listing line for a record given the outcome of decoding it as text.
pub fn line_from(raw: Vec<u8>, decoded: Option<String>) -> (r: DumpLine)
    requires
        decoded is Some <==> valid_utf8(raw@),
        decoded matches Some(s) ==> s@ == decode_utf8(raw@),
    ensures
        describes(r, raw@),
{
    match decoded {
        Some(s) => DumpLine::Text(s),
        None => DumpLine::Invalid(raw),
    }
}

/// The listing line for one record: its text, or its raw bytes marked as not
/// being text.
pub fn dump_line(raw: Vec<u8>) -> (r: DumpLine)
    ensures
        describes(r, raw@),
{
    let decoded = utf8_text(raw.as_slice());
    line_from(raw, decoded)
}

/// The listing lines for records, one per record and in the same order; a
/// record that is not text never stops the others from being listed.
pub fn dump_lines(records: Vec<Vec<u8>>) -> (r: Vec<DumpLine>)
    ensures
        r@.len() == records@.len(),
        forall|i: int| 0 <= i < r@.len() ==> describes(#[trigger] r@[i], records@[i]@),
{
    let mut r: Vec<DumpLine> = Vec::new();
    let mut rest = records;
    let ghost all = rest@;
    let total: usize = rest.len();
    let mut i: usize = 0;
    while rest.len() > 0
        invariant
            total == all.len(),
            i + rest@.len() == all.len(),
            r@.len() == i,
            rest@ == all.subrange(i as int, all.len() as int),
            forall|j: int| 0 <= j < i ==> describes(#[trigger] r@[j], all[j]@),
        decreases rest@.len(),
    {
        let raw = rest.remove(0);
        r.push(dump_line(raw));
        i += 1;
        assert(rest@ =~= all.subrange(i as int, all.len() as int));
    }
    r
}

} // verus!
