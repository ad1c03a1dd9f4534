//! The flash device, reached through esp-storage's `FlashStorage` and the
//! embedded-storage traits it implements.
use vstd::prelude::*;
use embedded_storage::nor_flash::NorFlash;
use embedded_storage::{ReadStorage, Storage};
use esp_storage::{FlashStorage, FlashStorageError};
use crate::layout::write_at;

verus! {

#[verifier::external_type_specification]
#[verifier::external_body]
pub struct ExFlashStorage(FlashStorage);

#[verifier::external_type_specification]
#[verifier::external_body]
pub struct ExFlashStorageError(FlashStorageError);

/// The bytes the flash holds at addresses `0..capacity`, where `capacity` is
/// what `ReadStorage::capacity` reports for the handle. The log assumes that
/// the handle its store owns is the only one through which the flash changes.
pub uninterp spec fn flash_bytes(f: FlashStorage) -> Seq<u8>;

/// Relies on esp_storage::FlashStorage::new, which opens the flash and learns
/// its size from the bootloader header; nothing is known of the result.
pub assume_specification[ FlashStorage::new ]() -> FlashStorage;

/// Relies on `ReadStorage::capacity` of `FlashStorage`: the flash size in
/// bytes as the device reports it, the number of addresses `flash_bytes`
/// covers.
#[verifier::external_body]
pub(crate) fn flash_capacity(f: &FlashStorage) -> (r: usize)
    ensures
        r == flash_bytes(*f).len(),
{
    ReadStorage::capacity(f)
}

/// Relies on `ReadStorage::read` of `FlashStorage`: it only reads, refuses a
/// range past the capacity, and on success fills the whole buffer with the
/// bytes at `offset..offset + len`.
#[verifier::external_body]
pub(crate) fn flash_read(f: &mut FlashStorage, offset: u32, len: usize) -> (r: Result<
    Vec<u8>,
    FlashStorageError,
>)
    ensures
        flash_bytes(*final(f)) == flash_bytes(*old(f)),
        r matches Ok(v) ==> offset + len <= flash_bytes(*old(f)).len() && v@ == flash_bytes(
            *old(f),
        ).subrange(offset as int, offset + len),
{
    let mut buf = vec![0u8; len];
    ReadStorage::read(f, offset, &mut buf).map(|_| buf)
}

/// Relies on `Storage::write` of `FlashStorage`: it refuses a range past the
/// capacity, and on success each sector the bytes fall in has been read,
/// patched with them, erased and rewritten, so the flash then holds `bytes`
/// at `offset` and is otherwise unchanged. The capacity never changes.
#[verifier::external_body]
pub(crate) fn flash_write(f: &mut FlashStorage, offset: u32, bytes: &[u8]) -> (r: Result<
    (),
    FlashStorageError,
>)
    ensures
        flash_bytes(*final(f)).len() == flash_bytes(*old(f)).len(),
        r is Ok ==> offset + bytes@.len() <= flash_bytes(*old(f)).len() && flash_bytes(*final(f))
            == write_at(flash_bytes(*old(f)), offset as int, bytes@),
{
    Storage::write(f, offset, bytes)
}

/// Relies on `NorFlash::erase` of `FlashStorage`: it refuses an unaligned
/// range or one past the capacity, and on success every byte in `from..to`
/// holds the erased value, all bits set, and every other byte is unchanged.
/// It subtracts `to - from` first, so `from` must not exceed `to`.
#[verifier::external_body]
pub(crate) fn flash_erase(f: &mut FlashStorage, from: u32, to: u32) -> (r: Result<
    (),
    FlashStorageError,
>)
    requires
        from <= to,
    ensures
        flash_bytes(*final(f)).len() == flash_bytes(*old(f)).len(),
        r is Ok ==> to <= flash_bytes(*old(f)).len() && forall|k: int|
            0 <= k < flash_bytes(*old(f)).len() ==> #[trigger] flash_bytes(*final(f))[k] == if from
                <= k < to {
                0xffu8
            } else {
                flash_bytes(*old(f))[k]
            },
{
    NorFlash::erase(f, from, to)
}

} // verus!
