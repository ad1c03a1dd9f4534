//! The storage engine: the log kept in a region of flash, with its count,
//! append, entries, dump and reset operations, and the single-writer step that
//! serves one mailbox command at a time.
use vstd::prelude::*;
use esp_storage::FlashStorage;
use crate::flash::{flash_bytes, flash_capacity, flash_erase, flash_read, flash_write};
use crate::layout::{
    append_image, committed, count_of, decode_count, encode_count, encode_record, entries_of, fits,
    le_bytes, lemma_entries_from_image, newest_first, payload_of,
    reset_image, same_payload, slot_of, slot_start, views, wf_image, write_at, HEADER_LEN,
    MAX_PAYLOAD, SLOT_LEN,
};
use crate::text::{describes, dump_lines, DumpLine};

verus! {

/// Where the log starts in the firmware's flash.
pub const FLASH_START: u32 = 0x9000;

/// The flash erase unit: resets go in strides of this many bytes.
pub const ERASE_UNIT: u32 = 4096;

/// Why a store operation failed.
#[derive(Clone, Copy, Debug, PartialEq, Eq, Structural)]
pub enum StoreError {
    /// The payload is longer than a slot can hold.
    PayloadTooLong,
    /// Every slot of the region is taken.
    RegionFull,
    /// The header counts more slots than the region holds.
    CountOutOfRange,
    /// The region is not a whole number of aligned erase units.
    BadRegion,
    /// The region ends past the flash's capacity.
    OutsideFlash,
    /// The flash device reported a fault.
    Device,
}

/// A range of flash addresses `[start, end)` given to the log.
#[derive(Clone, Copy, Debug, PartialEq, Eq, Structural)]
pub struct Region {
    pub start: u32,
    pub end: u32,
}

impl Region {
    /// A non-empty range made of whole, aligned erase units.
    pub open spec fn valid(self) -> bool {
        &&& self.start < self.end
        &&& self.start % ERASE_UNIT == 0
        &&& self.end % ERASE_UNIT == 0
    }

    /// Length of the region in bytes.
    pub open spec fn len(self) -> nat {
        (self.end - self.start) as nat
    }

    /// How many slots the region holds after its header.
    pub open spec fn slots(self) -> nat {
        ((self.len() - HEADER_LEN) / (SLOT_LEN as int)) as nat
    }

    /// Flash address of slot `i`.
    pub open spec fn slot_address(self, i: int) -> int {
        self.start + slot_start(i)
    }
}

/// Whether a region is usable for the log.
pub fn region_is_valid(start: u32, end: u32) -> (r: bool)
    ensures
        r == (Region { start, end }).valid(),
{
    start < end && start % ERASE_UNIT == 0 && end % ERASE_UNIT == 0
}

/// The firmware's region on a flash of `capacity` bytes: from `FLASH_START`
/// to the last whole erase unit, when that leaves a valid region.
pub open spec fn firmware_region_spec(capacity: nat) -> Option<Region> {
    let top: nat = if capacity > u32::MAX { u32::MAX as nat } else { capacity };
    let end = (top - top % (ERASE_UNIT as nat)) as u32;
    if (Region { start: FLASH_START, end }).valid() {
        Some(Region { start: FLASH_START, end })
    } else {
        None
    }
}

/// The firmware's region on a flash of `capacity` bytes.
pub fn firmware_region(capacity: usize) -> (r: Option<Region>)
    ensures
        r == firmware_region_spec(capacity as nat),
        r matches Some(g) ==> g.valid() && g.end <= capacity,
{
    let top: u32 = if capacity > u32::MAX as usize {
        u32::MAX
    } else {
        capacity as u32
    };
    let end = top - top % ERASE_UNIT;
    if region_is_valid(FLASH_START, end) {
        Some(Region { start: FLASH_START, end })
    } else {
        None
    }
}

/// What an append reports, given the region's content before it.
pub open spec fn append_outcome(img: Seq<u8>, p: Seq<u8>, a: Appended) -> bool {
    match a {
        Appended::Added { index } => index == count_of(img) && !committed(img).contains(p) && fits(
            img,
            count_of(img) + 1,
        ),
        Appended::Duplicate => committed(img).contains(p),
    }
}

/// Whether `lines` is the listing of the region content `img`: one line per
/// entry, newest first.
pub open spec fn lists(img: Seq<u8>, lines: Seq<DumpLine>) -> bool {
    &&& lines.len() == entries_of(img).len()
    &&& forall|i: int| 0 <= i < lines.len() ==> describes(#[trigger] lines[i], entries_of(img)[i])
}

proof fn lemma_write_within(f: Seq<u8>, start: int, end: int, off: int, bytes: Seq<u8>)
    requires
        0 <= start <= off,
        off + bytes.len() <= end <= f.len(),
    ensures
        write_at(f, off, bytes).subrange(start, end) == write_at(
            f.subrange(start, end),
            off - start,
            bytes,
        ),
{
    assert(write_at(f, off, bytes).subrange(start, end) =~= write_at(
        f.subrange(start, end),
        off - start,
        bytes,
    ));
}

proof fn lemma_slots_fit(region: Region, n: int)
    requires
        region.valid(),
        0 <= n,
    ensures
        n <= region.slots() <==> slot_start(n) <= region.len(),
{
    let len = region.len() as int;
    assert(n <= (len - 4) / 256 <==> 4 + 256 * n <= len) by (nonlinear_arith)
        requires
            len >= 4096,
            n >= 0,
    ;
}

/// Outcome of looking a payload up among the committed records.
#[derive(Clone, Copy, Debug, PartialEq, Eq, Structural)]
pub enum Scan {
    /// A committed record already holds it.
    Existing,
    /// It is absent; `index` is the next free slot, at flash address `offset`.
    NextFree { index: u32, offset: u32 },
}

/// Outcome of a successful append.
#[derive(Clone, Copy, Debug, PartialEq, Eq, Structural)]
pub enum Appended {
    /// The payload was stored in slot `index`.
    Added { index: u32 },
    /// The payload was already stored; nothing was written.
    Duplicate,
}

/// A request to the task that owns the flash.
#[derive(Clone, Debug, PartialEq, Eq)]
pub enum Command {
    Append(Vec<u8>),
    Dump,
}

/// What serving a request produced.
#[derive(Clone, Debug, PartialEq, Eq)]
pub enum Reply {
    Appended(Appended),
    Listing(Vec<DumpLine>),
}

/// The log over a region of flash. It owns the flash handle: every read,
/// write and erase of the log goes through one `Store`, and the task that
/// holds it serves requests one at a time.
///
/// The region starts with the record count, four bytes little-endian, and
/// goes on with fixed-size slots, slot `i` holding the `i`-th record as a
/// length byte and the payload. An append writes the slot first and the
/// count last: if power fails in between, the slot is simply not counted and
/// the payload is appended again when it next comes. The flash device
/// rewrites a whole erase unit for every write, so a power loss during the
/// count update itself can lose the slots that share the header's unit.
pub struct Store {
    storage: FlashStorage,
    region: Region,
}

impl Store {
    /// The store's region is valid and lies inside the flash; every
    /// constructor establishes this and every operation keeps it.
    pub closed spec fn wf(self) -> bool {
        &&& self.region.valid()
        &&& self.region.end <= flash_bytes(self.storage).len()
    }

    /// The region this store keeps its log in.
    pub closed spec fn region_spec(self) -> Region {
        self.region
    }

    /// The bytes of the store's region as the flash holds them.
    pub closed spec fn image(self) -> Seq<u8> {
        flash_bytes(self.storage).subrange(self.region.start as int, self.region.end as int)
    }

    /// The number of bytes of the flash the store's handle reaches.
    pub closed spec fn flash_len(self) -> nat {
        flash_bytes(self.storage).len()
    }

    /// A well-formed store's image spans its region.
    pub proof fn lemma_image_len(self)
        requires
            self.wf(),
        ensures
            self.image().len() == self.region_spec().len(),
            self.region_spec().valid(),
            self.region_spec().end <= self.flash_len(),
    {
    }

    /// The region this store keeps its log in.
    pub fn region(&self) -> (r: Region)
        ensures
            r == self.region_spec(),
            self.wf() ==> r.valid(),
    {
        self.region
    }

    /// Opens the log over `[start, end)` of the flash.
    pub fn with_region(start: u32, end: u32) -> (r: Result<Store, StoreError>)
        ensures
            !(Region { start, end }).valid() <==> r == Err::<Store, StoreError>(StoreError::BadRegion),
            r matches Err(e) ==> e == StoreError::BadRegion || e == StoreError::OutsideFlash,
            r matches Ok(s) ==> s.wf() && s.region_spec() == (Region { start, end }),
    {
        if !region_is_valid(start, end) {
            return Err(StoreError::BadRegion);
        }
        let storage = FlashStorage::new();
        let capacity = flash_capacity(&storage);
        if end as usize > capacity {
            return Err(StoreError::OutsideFlash);
        }
        Ok(Store { storage, region: Region { start, end } })
    }

    /// Opens the log where the firmware keeps it: from `FLASH_START` to the
    /// last whole erase unit of the flash.
    pub fn new() -> (r: Result<Store, StoreError>)
        ensures
            r matches Ok(s) ==> s.wf() && firmware_region_spec(s.flash_len()) == Some(s.region_spec()),
            r matches Err(e) ==> e == StoreError::BadRegion,
    {
        let storage = FlashStorage::new();
        let capacity = flash_capacity(&storage);
        match firmware_region(capacity) {
            Some(region) => Ok(Store { storage, region }),
            None => Err(StoreError::BadRegion),
        }
    }

    /// Reads `len` bytes at `offset`.
    fn read_at(&mut self, offset: u32, len: usize) -> (r: Result<Vec<u8>, StoreError>)
        requires
            old(self).wf(),
        ensures
            final(self).wf(),
            final(self).region_spec() == old(self).region_spec(),
            flash_bytes(final(self).storage) == flash_bytes(old(self).storage),
            final(self).image() == old(self).image(),
            r matches Ok(v) ==> offset + len <= flash_bytes(old(self).storage).len() && v@
                == flash_bytes(old(self).storage).subrange(offset as int, offset + len),
            r matches Err(e) ==> e == StoreError::Device,
    {
        match flash_read(&mut self.storage, offset, len) {
            Ok(v) => Ok(v),
            Err(_) => Err(StoreError::Device),
        }
    }

    /// Writes `bytes` at `offset`, inside the region.
    fn write_at(&mut self, offset: u32, bytes: &[u8]) -> (r: Result<(), StoreError>)
        requires
            old(self).wf(),
            old(self).region_spec().start <= offset,
            offset + bytes@.len() <= old(self).region_spec().end,
        ensures
            final(self).wf(),
            final(self).flash_len() == old(self).flash_len(),
            final(self).region_spec() == old(self).region_spec(),
            r is Ok ==> final(self).image() == write_at(
                old(self).image(),
                offset - old(self).region_spec().start,
                bytes@,
            ),
            r matches Err(e) ==> e == StoreError::Device,
    {
        let ghost f = flash_bytes(self.storage);
        match flash_write(&mut self.storage, offset, bytes) {
            Ok(()) => {
                proof {
                    lemma_write_within(f, self.region.start as int, self.region.end as int, offset as int, bytes@);
                }
                Ok(())
            },
            Err(_) => Err(StoreError::Device),
        }
    }

    /// Erases the erase unit at `offset`, inside the region.
    fn erase_unit_at(&mut self, offset: u32) -> (r: Result<(), StoreError>)
        requires
            old(self).wf(),
            old(self).region_spec().start <= offset,
            offset + ERASE_UNIT <= old(self).region_spec().end,
        ensures
            final(self).wf(),
            final(self).flash_len() == old(self).flash_len(),
            final(self).region_spec() == old(self).region_spec(),
            r is Ok ==> forall|k: int|
                0 <= k < old(self).image().len() ==> #[trigger] final(self).image()[k] == if offset
                    - old(self).region_spec().start <= k < offset + ERASE_UNIT - old(self).region_spec().start {
                    0xffu8
                } else {
                    old(self).image()[k]
                },
            r matches Err(e) ==> e == StoreError::Device,
    {
        match flash_erase(&mut self.storage, offset, offset + ERASE_UNIT) {
            Ok(()) => Ok(()),
            Err(_) => Err(StoreError::Device),
        }
    }

    /// Brings the region to the empty log: every erase unit of it is erased,
    /// in turn, and then the header is written as a count of zero, so that
    /// the count does not rest on what the erased bytes decode to.
    pub fn wipe(&mut self) -> (r: Result<(), StoreError>)
        requires
            old(self).wf(),
        ensures
            final(self).wf(),
            final(self).flash_len() == old(self).flash_len(),
            final(self).region_spec() == old(self).region_spec(),
            r is Ok ==> final(self).image() == reset_image(old(self).region_spec().len()),
            r is Ok ==> count_of(final(self).image()) == 0,
            r matches Err(e) ==> e == StoreError::Device,
    {
        let region = self.region;
        let ghost len = region.len();
        let mut offset: u32 = region.start;
        while offset < region.end
            invariant
                self.wf(),
                self.region_spec() == region,
                region == old(self).region_spec(),
                self.flash_len() == old(self).flash_len(),
                region.valid(),
                len == region.len(),
                self.image().len() == len,
                region.start <= offset <= region.end,
                offset % ERASE_UNIT == 0,
                forall|k: int| 0 <= k < offset - region.start ==> #[trigger] self.image()[k] == 0xffu8,
            decreases region.end - offset,
        {
            match self.erase_unit_at(offset) {
                Ok(()) => {},
                Err(e) => return Err(e),
            }
            offset = offset + ERASE_UNIT;
        }
        let header = encode_count(0);
        proof {
            assert(header@ =~= seq![0u8, 0u8, 0u8, 0u8]);
        }
        let ghost before = self.image();
        let r = self.write_at(region.start, header.as_slice());
        proof {
            if r is Ok {
                assert(self.image() =~= reset_image(len));
                assert(reset_image(len).subrange(0, HEADER_LEN as int) =~= seq![0u8, 0u8, 0u8, 0u8]);
            }
        }
        r
    }

    /// Opens the log where the firmware keeps it and empties it.
    pub fn reset() -> (r: Result<Store, StoreError>)
        ensures
            r matches Ok(s) ==> s.wf() && firmware_region_spec(s.flash_len()) == Some(s.region_spec())
                && s.image() == reset_image(s.region_spec().len()) && count_of(s.image()) == 0,
            r matches Err(e) ==> e == StoreError::BadRegion || e == StoreError::Device,
    {
        let mut store = match Store::new() {
            Ok(s) => s,
            Err(e) => return Err(e),
        };
        match store.wipe() {
            Ok(()) => Ok(store),
            Err(e) => Err(e),
        }
    }

    /// Opens the log over `[start, end)` and empties it.
    pub fn reset_region(start: u32, end: u32) -> (r: Result<Store, StoreError>)
        ensures
            !(Region { start, end }).valid() <==> r == Err::<Store, StoreError>(StoreError::BadRegion),
            r matches Err(e) ==> e == StoreError::BadRegion || e == StoreError::OutsideFlash || e
                == StoreError::Device,
            r matches Ok(s) ==> s.wf() && s.region_spec() == (Region { start, end }) && s.image()
                == reset_image(s.region_spec().len()) && count_of(s.image()) == 0,
    {
        let mut store = match Store::with_region(start, end) {
            Ok(s) => s,
            Err(e) => return Err(e),
        };
        match store.wipe() {
            Ok(()) => Ok(store),
            Err(e) => Err(e),
        }
    }

    /// The four header bytes.
    fn read_header(&mut self) -> (r: Result<Vec<u8>, StoreError>)
        requires
            old(self).wf(),
        ensures
            final(self).wf(),
            final(self).region_spec() == old(self).region_spec(),
            final(self).image() == old(self).image(),
            r matches Ok(h) ==> h@ == old(self).image().subrange(0, HEADER_LEN as int),
            r matches Err(e) ==> e == StoreError::Device,
    {
        let start = self.region.start;
        let r = self.read_at(start, HEADER_LEN);
        proof {
            if let Ok(h) = &r {
                assert(h@ =~= old(self).image().subrange(0, HEADER_LEN as int));
            }
        }
        r
    }

    /// The record count as the header states it. Only reads.
    pub fn count(&mut self) -> (r: Result<u32, StoreError>)
        requires
            old(self).wf(),
        ensures
            final(self).wf(),
            final(self).region_spec() == old(self).region_spec(),
            final(self).image() == old(self).image(),
            r matches Ok(n) ==> n == count_of(old(self).image()),
            r matches Err(e) ==> e == StoreError::Device,
    {
        let header = match self.read_header() {
            Ok(h) => h,
            Err(e) => return Err(e),
        };
        Ok(decode_count(header.as_slice()))
    }

    /// The record count, checked against the number of slots the region has.
    fn committed_count(&mut self) -> (r: Result<u32, StoreError>)
        requires
            old(self).wf(),
        ensures
            final(self).wf(),
            final(self).region_spec() == old(self).region_spec(),
            final(self).image() == old(self).image(),
            r matches Ok(n) ==> n == count_of(old(self).image()) && n <= old(self).region_spec().slots()
                && fits(old(self).image(), n as nat),
            r == Err::<u32, StoreError>(StoreError::CountOutOfRange) ==> !fits(
                old(self).image(),
                count_of(old(self).image()),
            ),
            r matches Err(e) ==> e == StoreError::Device || e == StoreError::CountOutOfRange,
    {
        let n = match self.count() {
            Ok(n) => n,
            Err(e) => return Err(e),
        };
        let region = self.region;
        proof {
            lemma_slots_fit(region, n as int);
        }
        let len: u32 = region.end - region.start;
        if n > (len - HEADER_LEN as u32) / SLOT_LEN as u32 {
            return Err(StoreError::CountOutOfRange);
        }
        Ok(n)
    }

    /// The flash address of slot `i`.
    fn slot_offset(&self, i: u32) -> (r: u32)
        requires
            self.wf(),
            i <= self.region_spec().slots(),
        ensures
            r == self.region_spec().slot_address(i as int),
            r <= self.region_spec().end,
    {
        let region = self.region;
        proof {
            lemma_slots_fit(region, i as int);
        }
        region.start + HEADER_LEN as u32 + SLOT_LEN as u32 * i
    }

    /// The bytes of slot `i`.
    fn read_slot(&mut self, i: u32) -> (r: Result<Vec<u8>, StoreError>)
        requires
            old(self).wf(),
            i < old(self).region_spec().slots(),
        ensures
            final(self).wf(),
            final(self).region_spec() == old(self).region_spec(),
            final(self).image() == old(self).image(),
            r matches Ok(v) ==> v@.len() == SLOT_LEN && v@ == slot_of(old(self).image(), i as int),
            r matches Err(e) ==> e == StoreError::Device,
    {
        proof {
            lemma_slots_fit(self.region, i as int + 1);
        }
        let offset = self.slot_offset(i);
        let r = self.read_at(offset, SLOT_LEN);
        proof {
            if let Ok(v) = &r {
                assert(v@ =~= slot_of(old(self).image(), i as int));
            }
        }
        r
    }

    /// The bytes of every committed slot, in slot order.
    fn committed_slots(&mut self) -> (r: Result<Vec<Vec<u8>>, StoreError>)
        requires
            old(self).wf(),
        ensures
            final(self).wf(),
            final(self).region_spec() == old(self).region_spec(),
            final(self).image() == old(self).image(),
            r matches Ok(slots) ==> slots@.len() == count_of(old(self).image()) && fits(
                old(self).image(),
                count_of(old(self).image()),
            ) && forall|i: int|
                0 <= i < slots@.len() ==> (#[trigger] slots@[i])@ == slot_of(old(self).image(), i)
                    && slots@[i]@.len() == SLOT_LEN,
            r == Err::<Vec<Vec<u8>>, StoreError>(StoreError::CountOutOfRange) ==> !fits(
                old(self).image(),
                count_of(old(self).image()),
            ),
            r matches Err(e) ==> e == StoreError::Device || e == StoreError::CountOutOfRange,
    {
        let n = match self.committed_count() {
            Ok(n) => n,
            Err(e) => return Err(e),
        };
        let mut slots: Vec<Vec<u8>> = Vec::new();
        let mut i: u32 = 0;
        while i < n
            invariant
                self.wf(),
                self.region_spec() == old(self).region_spec(),
                self.image() == old(self).image(),
                n <= self.region_spec().slots(),
                i <= n,
                slots@.len() == i,
                forall|j: int|
                    0 <= j < slots@.len() ==> (#[trigger] slots@[j])@ == slot_of(old(self).image(), j)
                        && slots@[j]@.len() == SLOT_LEN,
            decreases n - i,
        {
            let slot = match self.read_slot(i) {
                Ok(v) => v,
                Err(e) => return Err(e),
            };
            slots.push(slot);
            i += 1;
        }
        Ok(slots)
    }

    /// Every committed record, newest first. Only reads.
    pub fn entries(&mut self) -> (r: Result<Vec<Vec<u8>>, StoreError>)
        requires
            old(self).wf(),
        ensures
            final(self).wf(),
            final(self).region_spec() == old(self).region_spec(),
            final(self).image() == old(self).image(),
            r matches Ok(es) ==> wf_image(old(self).image()) && views(es@) == entries_of(
                old(self).image(),
            ),
            r == Err::<Vec<Vec<u8>>, StoreError>(StoreError::CountOutOfRange) ==> !fits(
                old(self).image(),
                count_of(old(self).image()),
            ),
            r matches Err(e) ==> e == StoreError::Device || e == StoreError::CountOutOfRange,
    {
        proof {
            self.lemma_image_len();
        }
        let slots = match self.committed_slots() {
            Ok(s) => s,
            Err(e) => return Err(e),
        };
        let es = newest_first(&slots);
        proof {
            lemma_entries_from_image(self.image(), views(slots@));
        }
        Ok(es)
    }

    /// Looks `candidate` up among the committed records, slot by slot, and
    /// stops at the first one that holds it; when none does, gives the next
    /// free slot. Only reads.
    pub fn find_or_next(&mut self, candidate: &[u8]) -> (r: Result<Scan, StoreError>)
        requires
            old(self).wf(),
        ensures
            final(self).wf(),
            final(self).region_spec() == old(self).region_spec(),
            final(self).image() == old(self).image(),
            r is Ok ==> fits(old(self).image(), count_of(old(self).image())),
            r matches Ok(Scan::Existing) ==> committed(old(self).image()).contains(candidate@),
            r matches Ok(Scan::NextFree { index, offset }) ==> index == count_of(old(self).image())
                && !committed(old(self).image()).contains(candidate@)
                && index <= old(self).region_spec().slots()
                && offset == old(self).region_spec().slot_address(index as int),
            r == Err::<Scan, StoreError>(StoreError::CountOutOfRange) ==> !fits(
                old(self).image(),
                count_of(old(self).image()),
            ),
            r matches Err(e) ==> e == StoreError::Device || e == StoreError::CountOutOfRange,
    {
        let n = match self.committed_count() {
            Ok(n) => n,
            Err(e) => return Err(e),
        };
        let ghost img = self.image();
        let mut i: u32 = 0;
        while i < n
            invariant
                self.wf(),
                self.region_spec() == old(self).region_spec(),
                self.image() == img,
                img == old(self).image(),
                n == count_of(img),
                n <= self.region_spec().slots(),
                i <= n,
                forall|j: int| 0 <= j < i ==> payload_of(#[trigger] slot_of(img, j)) != candidate@,
            decreases n - i,
        {
            let slot = match self.read_slot(i) {
                Ok(v) => v,
                Err(e) => return Err(e),
            };
            if same_payload(slot.as_slice(), candidate) {
                assert(committed(img)[i as int] == candidate@);
                return Ok(Scan::Existing);
            }
            i += 1;
        }
        assert(!committed(img).contains(candidate@)) by {
            if committed(img).contains(candidate@) {
                let k = choose|k: int| 0 <= k < committed(img).len() && committed(img)[k] == candidate@;
                assert(payload_of(slot_of(img, k)) == candidate@);
            }
        }
        let offset = self.slot_offset(n);
        Ok(Scan::NextFree { index: n, offset })
    }

    /// Stores `bytes` once: a payload already stored is left as it is, and a
    /// new one is written to the next free slot before the header counts it.
    /// A payload longer than a slot holds is refused before any access to the
    /// flash, never cut short.
    pub fn append(&mut self, bytes: &[u8]) -> (r: Result<Appended, StoreError>)
        requires
            old(self).wf(),
        ensures
            final(self).wf(),
            final(self).region_spec() == old(self).region_spec(),
            bytes@.len() > MAX_PAYLOAD <==> r == Err::<Appended, StoreError>(StoreError::PayloadTooLong),
            r is Ok ==> final(self).image() == append_image(old(self).image(), bytes@),
            r matches Ok(a) ==> append_outcome(old(self).image(), bytes@, a),
            r matches Err(e) ==> e != StoreError::Device ==> final(self).image() == old(self).image(),
            r == Err::<Appended, StoreError>(StoreError::RegionFull) ==> fits(
                old(self).image(),
                count_of(old(self).image()),
            ) && !fits(old(self).image(), count_of(old(self).image()) + 1)
                && !committed(old(self).image()).contains(bytes@),
            r == Err::<Appended, StoreError>(StoreError::CountOutOfRange) ==> !fits(
                old(self).image(),
                count_of(old(self).image()),
            ),
            r matches Err(e) ==> e == StoreError::PayloadTooLong || e == StoreError::RegionFull || e
                == StoreError::CountOutOfRange || e == StoreError::Device,
    {
        let record = match encode_record(bytes) {
            Some(v) => v,
            None => return Err(StoreError::PayloadTooLong),
        };
        let ghost img = self.image();
        let (index, offset) = match self.find_or_next(bytes) {
            Ok(Scan::Existing) => return Ok(Appended::Duplicate),
            Ok(Scan::NextFree { index, offset }) => (index, offset),
            Err(e) => return Err(e),
        };
        let region = self.region();
        proof {
            lemma_slots_fit(region, index as int + 1);
            self.lemma_image_len();
        }
        if index >= (region.end - region.start - HEADER_LEN as u32) / SLOT_LEN as u32 {
            return Err(StoreError::RegionFull);
        }
        match self.write_at(offset, record.as_slice()) {
            Ok(()) => {},
            Err(e) => return Err(e),
        }
        let ghost img1 = self.image();
        let header = encode_count(index + 1);
        match self.write_at(region.start, header.as_slice()) {
            Ok(()) => {
                assert(img1 == write_at(img, slot_start(index as int), record@));
                assert(self.image() == write_at(img1, 0, le_bytes((index + 1) as u32)));
                Ok(Appended::Added { index })
            },
            Err(e) => Err(e),
        }
    }

    /// Every committed record, newest first, as listing lines. Only reads.
    pub fn dump(&mut self) -> (r: Result<Vec<DumpLine>, StoreError>)
        requires
            old(self).wf(),
        ensures
            final(self).wf(),
            final(self).region_spec() == old(self).region_spec(),
            final(self).image() == old(self).image(),
            r matches Ok(lines) ==> lists(old(self).image(), lines@),
            r matches Err(e) ==> e == StoreError::Device || e == StoreError::CountOutOfRange,
    {
        let es = match self.entries() {
            Ok(es) => es,
            Err(e) => return Err(e),
        };
        let ghost evs = views(es@);
        assert(evs.len() == es@.len());
        let lines = dump_lines(es);
        proof {
            let img = self.image();
            assert forall|i: int| 0 <= i < lines@.len() implies describes(
                #[trigger] lines@[i],
                entries_of(img)[i],
            ) by {
                assert(evs[i] == entries_of(img)[i]);
            }
        }
        Ok(lines)
    }

    /// Serves one mailbox command: the single-writer task calls this for each
    /// command in arrival order, finishing one before taking the next. An
    /// append changes the region as `append_image` says; a dump only reads.
    pub fn handle(&mut self, command: Command) -> (r: Result<Reply, StoreError>)
        requires
            old(self).wf(),
        ensures
            final(self).wf(),
            final(self).region_spec() == old(self).region_spec(),
            command matches Command::Append(b) ==> {
                &&& b@.len() > MAX_PAYLOAD <==> r == Err::<Reply, StoreError>(StoreError::PayloadTooLong)
                &&& r is Ok ==> final(self).image() == append_image(old(self).image(), b@)
                &&& r matches Ok(reply) ==> (reply matches Reply::Appended(a) && append_outcome(
                    old(self).image(),
                    b@,
                    a,
                ))
                &&& r matches Err(e) ==> e != StoreError::Device ==> final(self).image() == old(
                    self,
                ).image()
            },
            command is Dump ==> {
                &&& final(self).image() == old(self).image()
                &&& r matches Ok(reply) ==> (reply matches Reply::Listing(lines) && lists(
                    old(self).image(),
                    lines@,
                ))
                &&& r matches Err(e) ==> e == StoreError::Device || e == StoreError::CountOutOfRange
            },
    {
        match command {
            Command::Append(bytes) => match self.append(bytes.as_slice()) {
                Ok(a) => Ok(Reply::Appended(a)),
                Err(e) => Err(e),
            },
            Command::Dump => match self.dump() {
                Ok(lines) => Ok(Reply::Listing(lines)),
                Err(e) => Err(e),
            },
        }
    }
}

} // verus!
