//! A persistent, append-only, deduplicating log of byte strings kept in raw
//! flash, with the decision logic of the firmware around it.
//!
//! - `layout`: the on-flash format (count header, length-prefixed slots) and
//!   the region-image model the contracts speak of.
//! - `store`: the storage engine over esp-storage's flash, and the step that
//!   serves one mailbox command.
//! - `laws`: properties of append, entries, count and reset, proved over
//!   region images.
//! - `text`: best-effort text rendering of records for listings.
//! - `flash`: the flash device calls the store relies on.
//! - `known`: the cache of names already seen.
//! - `lights`, `button`, `scene`, `battery`: the user-interface and
//!   fuel-gauge decisions, each as plain functions of their inputs.

pub mod battery;
pub mod button;
pub mod flash;
pub mod known;
pub mod laws;
pub mod layout;
pub mod lights;
pub mod scene;
pub mod store;
pub mod text;
