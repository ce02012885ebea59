//! Two single-byte cache slots for a path's filesystem metadata.
//!
//! * `link` — the `lstat` view of the path itself: file, directory, or symlink?
//! * `followed` — the `stat` view after following symlinks.
//!
//! Each view is packed into one [`AtomicU8`]. An all-zero byte (`INITIALIZED` unset) means
//! "not probed yet"; `EXISTS` distinguishes a cached `Some` from a cached `None`. Racing threads
//! may recompute the same answer, which is harmless because metadata is idempotent.
use std::sync::atomic::{AtomicU8, Ordering};

use vstd::prelude::*;

use crate::file_system::FileMetadata;

verus! {

pub const INITIALIZED: u8 = 1;
pub const EXISTS: u8 = 2;
pub const IS_FILE: u8 = 4;
pub const IS_DIR: u8 = 8;
pub const IS_SYMLINK: u8 = 16;

/// The slot byte for `meta`.
pub open spec fn spec_encode(meta: Option<FileMetadata>) -> u8 {
    match meta {
        None => INITIALIZED,
        Some(m) => (INITIALIZED | EXISTS | (if m.is_file { IS_FILE } else { 0u8 }) | (if m.is_dir {
            IS_DIR
        } else {
            0u8
        }) | (if m.is_symlink { IS_SYMLINK } else { 0u8 })) as u8,
    }
}

/// The metadata held by an initialized slot byte.
pub open spec fn spec_decode(bits: u8) -> Option<FileMetadata> {
    if bits & EXISTS != 0 {
        Some(
            FileMetadata {
                is_file: bits & IS_FILE != 0,
                is_dir: bits & IS_DIR != 0,
                is_symlink: bits & IS_SYMLINK != 0,
            },
        )
    } else {
        None
    }
}

/// Decoding an encoded slot gives back the metadata, and an encoded slot is initialized.
pub proof fn law_decode_encode(meta: Option<FileMetadata>)
    ensures
        spec_decode(spec_encode(meta)) == meta,
        spec_encode(meta) & INITIALIZED != 0,
{
    match meta {
        None => {
            assert((1u8 & 2u8) == 0u8) by (bit_vector);
            assert((1u8 & 1u8) != 0u8) by (bit_vector);
        },
        Some(m) => {
            let f = m.is_file;
            let d = m.is_dir;
            let s = m.is_symlink;
            let bits: u8 = (1u8 | 2u8 | (if f { 4u8 } else { 0u8 }) | (if d { 8u8 } else { 0u8 }) | (if s {
                16u8
            } else {
                0u8
            })) as u8;
            assert(bits & 2u8 != 0 && bits & 1u8 != 0 && (bits & 4u8 != 0) == f && (bits & 8u8 != 0) == d && (bits & 16u8 != 0) == s) by (bit_vector)
                requires
                    bits == (1u8 | 2u8 | (if f { 4u8 } else { 0u8 }) | (if d { 8u8 } else { 0u8 }) | (if s { 16u8 } else { 0u8 })) as u8,
            ;
        },
    }
}

fn encode(meta: Option<FileMetadata>) -> (bits: u8)
    ensures
        bits == spec_encode(meta),
{
    match meta {
        None => INITIALIZED,
        Some(m) => {
            INITIALIZED | EXISTS | (if m.is_file() { IS_FILE } else { 0u8 }) | (if m.is_dir() {
                IS_DIR
            } else {
                0u8
            }) | (if m.is_symlink() { IS_SYMLINK } else { 0u8 })
        },
    }
}

fn decode(bits: u8) -> (meta: Option<FileMetadata>)
    ensures
        meta == spec_decode(bits),
{
    if bits & EXISTS != 0 {
        Some(FileMetadata::new(bits & IS_FILE != 0, bits & IS_DIR != 0, bits & IS_SYMLINK != 0))
    } else {
        None
    }
}

/// Lazily-populated `lstat` (`link`) and `stat` (`followed`) metadata, one byte each.
#[derive(Default)]
pub struct CachedMeta {
    link: AtomicU8,
    followed: AtomicU8,
}

impl CachedMeta {
    pub fn new() -> Self {
        Self { link: AtomicU8::new(0), followed: AtomicU8::new(0) }
    }

    /// Return the cached `lstat` view, or populate it from `f` (an `lstat`) and return that.
    pub fn link_or_init<F: FnOnce() -> Option<FileMetadata>>(&self, f: F) -> (r: Option<FileMetadata>)
        requires
            f.requires(()),
        ensures
            f.ensures((), r) || exists|bits: u8| bits & INITIALIZED != 0 && r == #[trigger] spec_decode(bits),
    {
        get_or_init(&self.link, f)
    }

    /// Return the cached `stat` (symlink-followed) view, or populate it from `f` and return that.
    pub fn followed_or_init<F: FnOnce() -> Option<FileMetadata>>(&self, f: F) -> (r: Option<FileMetadata>)
        requires
            f.requires(()),
        ensures
            f.ensures((), r) || exists|bits: u8| bits & INITIALIZED != 0 && r == #[trigger] spec_decode(bits),
    {
        get_or_init(&self.followed, f)
    }
}

/// The slot's metadata when it is initialized; otherwise `f`'s answer, which is stored.
fn get_or_init<F: FnOnce() -> Option<FileMetadata>>(slot: &AtomicU8, f: F) -> (r: Option<FileMetadata>)
    requires
        f.requires(()),
    ensures
        f.ensures((), r) || exists|bits: u8| bits & INITIALIZED != 0 && r == #[trigger] spec_decode(bits),
{
    let bits = slot.load(Ordering::Relaxed);
    if (bits & INITIALIZED) != 0 {
        return decode(bits);
    }
    let meta = f();
    slot.store(encode(meta), Ordering::Relaxed);
    meta
}

} // verus!
