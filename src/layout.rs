//! On-flash layout of the log: a four-byte little-endian record count followed
//! by fixed-size slots, each holding a length byte and that many payload bytes.
//!
//! A region image is the byte content of the log region, index 0 being the
//! region's first byte.
use vstd::prelude::*;

verus! {

/// Width of the record-count header.
pub const HEADER_LEN: usize = 4;

/// Width of one slot.
pub const SLOT_LEN: usize = 256;

/// Longest payload a slot holds (its length must fit the length byte).
pub const MAX_PAYLOAD: usize = 255;

/// The little-endian value of four bytes.
pub open spec fn le_value(b: Seq<u8>) -> nat {
    b[0] as nat + 256 * (b[1] as nat) + 65536 * (b[2] as nat) + 16777216 * (b[3] as nat)
}

/// The four little-endian bytes of `n`.
pub open spec fn le_bytes(n: u32) -> Seq<u8> {
    seq![
        (n % 256) as u8,
        ((n / 256) % 256) as u8,
        ((n / 65536) % 256) as u8,
        (n / 16777216) as u8,
    ]
}

/// The payload a slot holds: `slot[0]` bytes after the length byte.
pub open spec fn payload_of(slot: Seq<u8>) -> Seq<u8> {
    slot.subrange(1, 1 + slot[0] as int)
}

/// The bytes written for a payload: its length, then the payload itself.
pub open spec fn record_bytes(p: Seq<u8>) -> Seq<u8> {
    seq![p.len() as u8] + p
}

/// Offset of slot `i` within a region.
pub open spec fn slot_start(i: int) -> int {
    HEADER_LEN as int + SLOT_LEN as int * i
}

/// Number of committed records that an image's header states.
pub open spec fn count_of(img: Seq<u8>) -> nat {
    le_value(img.subrange(0, HEADER_LEN as int))
}

/// The bytes of slot `i` of an image.
pub open spec fn slot_of(img: Seq<u8>, i: int) -> Seq<u8> {
    img.subrange(slot_start(i), slot_start(i) + SLOT_LEN as int)
}

/// Whether `n` slots fit in an image after its header.
pub open spec fn fits(img: Seq<u8>, n: nat) -> bool {
    slot_start(n as int) <= img.len()
}

/// An image whose header is present and whose committed slots all lie inside it.
pub open spec fn wf_image(img: Seq<u8>) -> bool {
    &&& HEADER_LEN <= img.len() <= u32::MAX
    &&& fits(img, count_of(img))
}

/// The committed payloads, oldest first.
pub open spec fn committed(img: Seq<u8>) -> Seq<Seq<u8>> {
    Seq::new(count_of(img), |i: int| payload_of(slot_of(img, i)))
}

/// The committed payloads, newest first.
pub open spec fn entries_of(img: Seq<u8>) -> Seq<Seq<u8>> {
    committed(img).reverse()
}

/// The payloads of slots listed in slot order, newest first.
pub open spec fn entries_from(slots: Seq<Seq<u8>>) -> Seq<Seq<u8>> {
    Seq::new(slots.len(), |i: int| payload_of(slots[slots.len() - 1 - i]))
}

/// The byte strings held in a sequence of vectors.
pub open spec fn views(v: Seq<Vec<u8>>) -> Seq<Seq<u8>> {
    v.map_values(|x: Vec<u8>| x@)
}

/// An image with `bytes` written at `off`.
pub open spec fn write_at(img: Seq<u8>, off: int, bytes: Seq<u8>) -> Seq<u8> {
    img.subrange(0, off) + bytes + img.subrange(off + bytes.len(), img.len() as int)
}

/// The image after appending `p`: unchanged when `p` is already committed,
/// too long, or when no free slot is left; otherwise the record is written to
/// the next free slot and the header then counts it.
pub open spec fn append_image(img: Seq<u8>, p: Seq<u8>) -> Seq<u8> {
    let n = count_of(img);
    if committed(img).contains(p) || p.len() > MAX_PAYLOAD || !fits(img, n + 1) {
        img
    } else {
        write_at(write_at(img, slot_start(n as int), record_bytes(p)), 0, le_bytes((n + 1) as u32))
    }
}

/// An image after reset: the header holds a count of zero and every other
/// byte holds the erased value, all bits set.
pub open spec fn reset_image(len: nat) -> Seq<u8> {
    Seq::new(len, |i: int| if i < HEADER_LEN { 0u8 } else { 0xffu8 })
}

/// The header bytes of a count decode back to that count.
pub proof fn lemma_le_round_trip(n: u32)
    ensures
        le_bytes(n).len() == 4,
        le_value(le_bytes(n)) == n,
{
    let b = le_bytes(n);
    let n0 = n as int;
    assert(b[0] as int == n0 % 256);
    assert(b[1] as int == (n0 / 256) % 256);
    assert(b[2] as int == (n0 / 65536) % 256);
    assert(b[3] as int == n0 / 16777216) by {
        assert(n0 / 16777216 < 256) by (nonlinear_arith)
            requires 0 <= n0 < 0x1_0000_0000;
    }
    assert(n0 == n0 % 256 + 256 * ((n0 / 256) % 256) + 65536 * ((n0 / 65536) % 256) + 16777216 * (n0 / 16777216)) by (nonlinear_arith)
        requires 0 <= n0;
}

/// Decodes the record count from the four header bytes.
pub fn decode_count(header: &[u8]) -> (r: u32)
    requires
        header@.len() == HEADER_LEN,
    ensures
        r as nat == le_value(header@),
{
    (header[0] as u32) + 256 * (header[1] as u32) + 65536 * (header[2] as u32) + 16777216 * (header[3] as u32)
}

/// Encodes a record count as the four header bytes.
pub fn encode_count(n: u32) -> (r: Vec<u8>)
    ensures
        r@ == le_bytes(n),
        le_value(r@) == n,
{
    proof { lemma_le_round_trip(n); }
    let mut r: Vec<u8> = Vec::new();
    r.push((n % 256) as u8);
    r.push(((n / 256) % 256) as u8);
    r.push(((n / 65536) % 256) as u8);
    r.push((n / 16777216) as u8);
    assert(r@ =~= le_bytes(n));
    r
}

/// Decodes the payload held in one slot.
pub fn decode_slot(slot: &[u8]) -> (r: Vec<u8>)
    requires
        slot@.len() == SLOT_LEN,
    ensures
        r@ == payload_of(slot@),
{
    let len = slot[0] as usize;
    let mut r: Vec<u8> = Vec::new();
    let mut i: usize = 0;
    while i < len
        invariant
            len == slot@[0] as usize,
            len < SLOT_LEN <= slot@.len(),
            i <= len,
            r@ == slot@.subrange(1, 1 + i as int),
        decreases len - i,
    {
        r.push(slot[i + 1]);
        i += 1;
        assert(r@ =~= slot@.subrange(1, 1 + i as int));
    }
    r
}

/// The bytes to write for a payload, or `None` when it is longer than a slot
/// can hold.
pub fn encode_record(p: &[u8]) -> (r: Option<Vec<u8>>)
    ensures
        r is None <==> p@.len() > MAX_PAYLOAD,
        r matches Some(v) ==> v@ == record_bytes(p@),
{
    if p.len() > MAX_PAYLOAD {
        return None;
    }
    let mut r: Vec<u8> = Vec::new();
    r.push(p.len() as u8);
    let mut i: usize = 0;
    while i < p.len()
        invariant
            p@.len() <= MAX_PAYLOAD,
            i <= p@.len(),
            r@ == seq![p@.len() as u8] + p@.subrange(0, i as int),
        decreases p@.len() - i,
    {
        r.push(p[i]);
        i += 1;
        assert(r@ =~= seq![p@.len() as u8] + p@.subrange(0, i as int));
    }
    assert(p@.subrange(0, p@.len() as int) =~= p@);
    Some(r)
}

/// Whether a slot holds exactly `candidate`.
pub fn same_payload(slot: &[u8], candidate: &[u8]) -> (r: bool)
    requires
        slot@.len() == SLOT_LEN,
    ensures
        r == (payload_of(slot@) == candidate@),
{
    let len = slot[0] as usize;
    if len != candidate.len() {
        assert(payload_of(slot@).len() != candidate@.len());
        return false;
    }
    let mut i: usize = 0;
    while i < len
        invariant
            len == slot@[0] as usize,
            len == candidate@.len(),
            len < SLOT_LEN <= slot@.len(),
            i <= len,
            forall|k: int| 0 <= k < i ==> slot@[k + 1] == candidate@[k],
        decreases len - i,
    {
        if slot[i + 1] != candidate[i] {
            assert(payload_of(slot@)[i as int] != candidate@[i as int]);
            return false;
        }
        i += 1;
    }
    assert(payload_of(slot@) =~= candidate@);
    true
}

/// The payloads of slots read in slot order, newest first.
pub fn newest_first(slots: &Vec<Vec<u8>>) -> (r: Vec<Vec<u8>>)
    requires
        forall|i: int| 0 <= i < slots@.len() ==> (#[trigger] slots@[i])@.len() == SLOT_LEN,
    ensures
        views(r@) == entries_from(views(slots@)),
{
    let mut r: Vec<Vec<u8>> = Vec::new();
    let mut i: usize = 0;
    while i < slots.len()
        invariant
            forall|j: int| 0 <= j < slots@.len() ==> (#[trigger] slots@[j])@.len() == SLOT_LEN,
            i <= slots@.len(),
            r@.len() == i,
            forall|j: int| 0 <= j < i ==> (#[trigger] r@[j])@ == payload_of(slots@[i - 1 - j]@),
        decreases slots@.len() - i,
    {
        let p = decode_slot(slots[i].as_slice());
        r.insert(0, p);
        i += 1;
    }
    assert(views(r@) =~= entries_from(views(slots@)));
    r
}

/// When every committed slot of an image is among `slots`, the image's
/// entries are those of the slots.
pub proof fn lemma_entries_from_image(img: Seq<u8>, slots: Seq<Seq<u8>>)
    requires
        slots.len() == count_of(img),
        forall|i: int| 0 <= i < slots.len() ==> #[trigger] slot_of(img, i) == slots[i],
    ensures
        entries_of(img) == entries_from(slots),
{
    assert(entries_of(img) =~= entries_from(slots));
}

} // verus!
