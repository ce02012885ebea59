//! Single-byte cache slot for "is this path a symlink?".
use std::sync::atomic::{AtomicU8, Ordering};

use vstd::prelude::*;

verus! {

pub const UNINIT: u8 = 0;
pub const NOT_SYMLINK: u8 = 1;
pub const IS_SYMLINK: u8 = 2;

/// The answer a slot byte holds: `None` while unprobed.
pub open spec fn spec_symlink_state(state: u8) -> Option<bool> {
    if state == NOT_SYMLINK {
        Some(false)
    } else if state == IS_SYMLINK {
        Some(true)
    } else {
        None
    }
}

pub open spec fn spec_symlink_byte(is_symlink: bool) -> u8 {
    if is_symlink {
        IS_SYMLINK
    } else {
        NOT_SYMLINK
    }
}

/// A stored answer reads back as itself; the initial byte reads as unprobed.
pub proof fn law_symlink_roundtrip(is_symlink: bool)
    ensures
        spec_symlink_state(spec_symlink_byte(is_symlink)) == Some(is_symlink),
        spec_symlink_state(UNINIT) is None,
{
}

/// Lazily-populated tri-state symlink flag packed into one byte.
pub struct CachedSymlink(AtomicU8);

impl CachedSymlink {
    pub fn new() -> Self {
        Self(AtomicU8::new(UNINIT))
    }

    /// Return `Some(true)` if the path is known to be a symlink,
    /// `Some(false)` if known not to be, `None` if not yet probed.
    pub fn get(&self) -> (r: Option<bool>)
        ensures
            exists|state: u8| r == #[trigger] spec_symlink_state(state),
    {
        let state = self.0.load(Ordering::Relaxed);
        let r = if state == NOT_SYMLINK {
            Some(false)
        } else if state == IS_SYMLINK {
            Some(true)
        } else {
            None
        };
        proof {
            assert(r == spec_symlink_state(state));
        }
        r
    }

    /// Store a known answer. Idempotent — multiple writers race harmlessly.
    pub fn set(&self, is_symlink: bool) {
        let state = if is_symlink {
            IS_SYMLINK
        } else {
            NOT_SYMLINK
        };
        self.0.store(state, Ordering::Relaxed);
    }
}

impl Default for CachedSymlink {
    fn default() -> Self {
        Self::new()
    }
}

} // verus!
