//! Arena-based storage for packed path data.
//!
//! Each cached path gets a small packed record: a pre-computed hash, bit-packed metadata flags,
//! the path length, the 1-based index of its parent (0 = no parent) and, for paths of at most
//! [`INLINE_PATH_MAX_LEN`] bytes, the path bytes themselves. Longer paths are kept in a parallel
//! heap list. Records are addressed by 1-based indices so that 0 can mean "none".
use vstd::prelude::*;
use vstd::string::StringSliceAdditionalSpecFns;

use crate::file_system::FileMetadata;
use crate::perf::PerfCounters;
use crate::path::{file_name, node_modules_chars, spec_file_name};
use crate::text::str_chars;
use crate::path::chars_eq;

verus! {

/// Maximum path length for inline storage.
pub const INLINE_PATH_MAX_LEN: usize = 48;

pub const METADATA_IS_FILE: u8 = 1;
pub const METADATA_IS_DIR: u8 = 2;
pub const METADATA_IS_SYMLINK: u8 = 4;
pub const METADATA_INSIDE_NODE_MODULES: u8 = 8;
pub const METADATA_IS_NODE_MODULES: u8 = 16;
/// Set once file metadata has been recorded.
pub const METADATA_HAS_METADATA: u8 = 128;

/// Packed per-path data.
#[derive(Debug, Clone, Copy)]
pub struct PackedPathData {
    /// Pre-computed hash for fast lookups
    pub path_hash: u64,
    /// Packed metadata flags
    pub metadata_flags: u8,
    /// Length of the path in bytes, saturated at `u16::MAX`
    pub path_len: u16,
    /// 1-based index of the parent in the arena (0 = no parent)
    pub parent_index: u32,
    /// The first bytes of the path (all of them when it fits)
    pub inline_path: [u8; 48],
}

pub open spec fn flag_set(flags: u8, bit: u8) -> bool {
    flags & bit != 0
}

impl PackedPathData {
    /// Packs `path`: its length, its first bytes, and whether its last component is
    /// `node_modules`.
    pub fn new(path: &str, hash: u64, parent_index: u32) -> (r: Self)
        ensures
            r.path_hash == hash,
            r.parent_index == parent_index,
            r.path_len == (if path.spec_bytes().len() <= u16::MAX {
                path.spec_bytes().len() as int
            } else {
                u16::MAX as int
            }),
            forall|k: int|
                0 <= k < INLINE_PATH_MAX_LEN ==> #[trigger] r.inline_path@[k] == (if k
                    < path.spec_bytes().len() {
                    path.spec_bytes()[k]
                } else {
                    0u8
                }),
            r.metadata_flags == (if spec_file_name(path@) == Some(node_modules_chars()) {
                METADATA_IS_NODE_MODULES
            } else {
                0u8
            }),
    {
        let bytes = path.as_bytes();
        let path_len: u16 = if bytes.len() <= 65535 {
            bytes.len() as u16
        } else {
            65535
        };
        let mut inline_path = [0u8; 48];
        let mut i: usize = 0;
        while i < 48
            invariant
                i <= 48,
                bytes@ == path.spec_bytes(),
                forall|k: int|
                    0 <= k < 48 ==> #[trigger] inline_path@[k] == (if k < i && k < bytes@.len() {
                        bytes@[k]
                    } else {
                        0u8
                    }),
            decreases 48 - i,
        {
            if i < bytes.len() {
                inline_path[i] = bytes[i];
            }
            i = i + 1;
        }
        let is_node_modules = match file_name(path) {
            Some(name) => {
                let chars = str_chars(name.as_str());
                let nm: Vec<char> = vec!['n', 'o', 'd', 'e', '_', 'm', 'o', 'd', 'u', 'l', 'e', 's'];
                proof {
                    assert(nm@ =~= node_modules_chars());
                }
                chars_eq(&chars, &nm)
            },
            None => false,
        };
        let metadata_flags: u8 = if is_node_modules {
            METADATA_IS_NODE_MODULES
        } else {
            0
        };
        Self { path_hash: hash, metadata_flags, path_len, parent_index, inline_path }
    }

    pub fn has_metadata(&self) -> (r: bool)
        ensures
            r == flag_set(self.metadata_flags, METADATA_HAS_METADATA),
    {
        self.metadata_flags & METADATA_HAS_METADATA != 0
    }

    pub fn is_file_fast(&self) -> (r: Option<bool>)
        ensures
            r == (if flag_set(self.metadata_flags, METADATA_HAS_METADATA) {
                Some(flag_set(self.metadata_flags, METADATA_IS_FILE))
            } else {
                None
            }),
    {
        if self.has_metadata() {
            Some(self.metadata_flags & METADATA_IS_FILE != 0)
        } else {
            None
        }
    }

    pub fn is_dir_fast(&self) -> (r: Option<bool>)
        ensures
            r == (if flag_set(self.metadata_flags, METADATA_HAS_METADATA) {
                Some(flag_set(self.metadata_flags, METADATA_IS_DIR))
            } else {
                None
            }),
    {
        if self.has_metadata() {
            Some(self.metadata_flags & METADATA_IS_DIR != 0)
        } else {
            None
        }
    }

    pub fn is_symlink_fast(&self) -> (r: Option<bool>)
        ensures
            r == (if flag_set(self.metadata_flags, METADATA_HAS_METADATA) {
                Some(flag_set(self.metadata_flags, METADATA_IS_SYMLINK))
            } else {
                None
            }),
    {
        if self.has_metadata() {
            Some(self.metadata_flags & METADATA_IS_SYMLINK != 0)
        } else {
            None
        }
    }

    pub fn is_node_modules(&self) -> (r: bool)
        ensures
            r == flag_set(self.metadata_flags, METADATA_IS_NODE_MODULES),
    {
        self.metadata_flags & METADATA_IS_NODE_MODULES != 0
    }

    pub fn inside_node_modules(&self) -> (r: bool)
        ensures
            r == flag_set(self.metadata_flags, METADATA_INSIDE_NODE_MODULES),
    {
        self.metadata_flags & METADATA_INSIDE_NODE_MODULES != 0
    }

    /// Records `metadata`: the metadata bit and the bits of the kinds that are true are set;
    /// no bit is cleared.
    pub fn set_metadata(&mut self, metadata: FileMetadata)
        ensures
            final(self).metadata_flags == (old(self).metadata_flags | METADATA_HAS_METADATA | (if metadata.is_file {
                METADATA_IS_FILE
            } else {
                0u8
            }) | (if metadata.is_dir {
                METADATA_IS_DIR
            } else {
                0u8
            }) | (if metadata.is_symlink {
                METADATA_IS_SYMLINK
            } else {
                0u8
            })),
            final(self).path_hash == old(self).path_hash,
            final(self).path_len == old(self).path_len,
            final(self).parent_index == old(self).parent_index,
            final(self).inline_path == old(self).inline_path,
    {
        self.metadata_flags = self.metadata_flags | METADATA_HAS_METADATA | (if metadata.is_file {
            METADATA_IS_FILE
        } else {
            0u8
        }) | (if metadata.is_dir {
            METADATA_IS_DIR
        } else {
            0u8
        }) | (if metadata.is_symlink {
            METADATA_IS_SYMLINK
        } else {
            0u8
        });
    }

    pub fn path_fits_inline(&self) -> (r: bool)
        ensures
            r == (self.path_len <= INLINE_PATH_MAX_LEN),
    {
        (self.path_len as usize) <= INLINE_PATH_MAX_LEN
    }

    /// The path bytes, when the whole path is stored inline.
    pub fn get_inline_path(&self) -> (r: Option<Vec<u8>>)
        ensures
            self.path_len <= INLINE_PATH_MAX_LEN ==> (r matches Some(v) && v@ == self.inline_path@.take(self.path_len as int)),
            self.path_len > INLINE_PATH_MAX_LEN ==> r is None,
    {
        if self.path_fits_inline() {
            let n = self.path_len as usize;
            let mut v: Vec<u8> = Vec::new();
            let mut i: usize = 0;
            while i < n
                invariant
                    i <= n <= 48,
                    v@ == self.inline_path@.take(i as int),
                decreases n - i,
            {
                v.push(self.inline_path[i]);
                proof {
                    assert(self.inline_path@.take(i as int + 1) =~= self.inline_path@.take(i as int).push(self.inline_path@[i as int]));
                }
                i = i + 1;
            }
            Some(v)
        } else {
            None
        }
    }
}

/// Recording metadata on a record that has none yet makes the fast queries answer with it, and
/// keeps the node_modules flags.
pub proof fn law_set_metadata_then_query(flags: u8, metadata: FileMetadata)
    requires
        flags & (METADATA_IS_FILE | METADATA_IS_DIR | METADATA_IS_SYMLINK | METADATA_HAS_METADATA) == 0,
    ensures
        ({
            let nf = (flags | METADATA_HAS_METADATA | (if metadata.is_file { METADATA_IS_FILE } else { 0u8 })
                | (if metadata.is_dir { METADATA_IS_DIR } else { 0u8 }) | (if metadata.is_symlink {
                METADATA_IS_SYMLINK
            } else {
                0u8
            })) as u8;
            &&& flag_set(nf, METADATA_HAS_METADATA)
            &&& flag_set(nf, METADATA_IS_FILE) == metadata.is_file
            &&& flag_set(nf, METADATA_IS_DIR) == metadata.is_dir
            &&& flag_set(nf, METADATA_IS_SYMLINK) == metadata.is_symlink
            &&& flag_set(nf, METADATA_IS_NODE_MODULES) == flag_set(flags, METADATA_IS_NODE_MODULES)
            &&& flag_set(nf, METADATA_INSIDE_NODE_MODULES) == flag_set(flags, METADATA_INSIDE_NODE_MODULES)
        }),
{
    let f = metadata.is_file;
    let d = metadata.is_dir;
    let s = metadata.is_symlink;
    let nf = (flags | 128u8 | (if f { 1u8 } else { 0u8 }) | (if d { 2u8 } else { 0u8 }) | (if s { 4u8 } else { 0u8 })) as u8;
    assert(nf & 128u8 != 0 && (nf & 1u8 != 0) == f && (nf & 2u8 != 0) == d && (nf & 4u8 != 0) == s
        && (nf & 16u8 != 0) == (flags & 16u8 != 0) && (nf & 8u8 != 0) == (flags & 8u8 != 0)) by (bit_vector)
        requires
            flags & (1u8 | 2u8 | 4u8 | 128u8) == 0,
            nf == (flags | 128u8 | (if f { 1u8 } else { 0u8 }) | (if d { 2u8 } else { 0u8 }) | (if s { 4u8 } else { 0u8 })) as u8,
    ;
}

/// Puts `path` at `index`, growing the list with empty paths as needed.
fn store_heap_path(heap_paths: &mut Vec<String>, index: usize, path: String)
    ensures
        final(heap_paths)@.len() > index,
        final(heap_paths)@[index as int] == path,
{
    while heap_paths.len() <= index
        invariant
            heap_paths@.len() >= old(heap_paths)@.len(),
        decreases index + 1 - heap_paths.len(),
    {
        heap_paths.push(String::new());
    }
    heap_paths.set(index, path);
}

/// Arena-based storage for packed path data.
pub struct PathArena {
    /// Storage for packed path data
    pub paths: Vec<PackedPathData>,
    /// Heap storage for paths that don't fit inline, at the index of their record
    pub heap_paths: Vec<String>,
    /// Free list for reusing slots
    pub free_indices: Vec<u32>,
}

impl PathArena {
    /// Every free slot is a slot of the arena, and 1-based indices fit in `u32`.
    pub open spec fn wf(&self) -> bool {
        &&& self.paths@.len() < u32::MAX
        &&& forall|k: int| 0 <= k < self.free_indices@.len() ==> (#[trigger] self.free_indices@[k]) < self.paths@.len()
    }

    /// The slot that the next insertion fills: the last free slot, or a new one at the end.
    pub open spec fn next_slot(&self) -> int {
        if self.free_indices@.len() > 0 {
            self.free_indices@.last() as int
        } else {
            self.paths@.len() as int
        }
    }

    pub open spec fn len_after_insert(&self) -> int {
        if self.free_indices@.len() > 0 {
            self.paths@.len() as int
        } else {
            self.paths@.len() + 1int
        }
    }

    pub fn new() -> (r: Self)
        ensures
            r.wf(),
            r.paths@.len() == 0,
            r.heap_paths@.len() == 0,
            r.free_indices@.len() == 0,
    {
        Self { paths: Vec::new(), heap_paths: Vec::new(), free_indices: Vec::new() }
    }

    /// Stores `packed_data` in the next slot and returns its 1-based index. A record whose
    /// parent is `node_modules` or lies inside it is marked as inside `node_modules`.
    pub fn insert(&mut self, packed_data: PackedPathData, heap_path: Option<String>) -> (index: u32)
        requires
            old(self).wf(),
            packed_data.parent_index == 0 || packed_data.parent_index - 1 < old(self).len_after_insert(),
            old(self).paths@.len() + 1 < u32::MAX,
        ensures
            final(self).wf(),
            index == old(self).next_slot() + 1,
            final(self).paths@.len() == old(self).len_after_insert(),
            final(self).free_indices@ == (if old(self).free_indices@.len() > 0 {
                old(self).free_indices@.drop_last()
            } else {
                old(self).free_indices@
            }),
            forall|k: int|
                0 <= k < final(self).paths@.len() && k != old(self).next_slot() ==> #[trigger] final(self).paths@[k]
                    == old(self).paths@[k],
            ({
                let slot = old(self).next_slot();
                let stored = final(self).paths@[slot];
                let pi = packed_data.parent_index;
                let parent_flags = if pi == 0 {
                    0u8
                } else if pi - 1 == slot {
                    packed_data.metadata_flags
                } else {
                    old(self).paths@[pi - 1].metadata_flags
                };
                let marks = pi != 0 && (flag_set(parent_flags, METADATA_IS_NODE_MODULES) || flag_set(
                    parent_flags,
                    METADATA_INSIDE_NODE_MODULES,
                ));
                &&& stored.path_hash == packed_data.path_hash
                &&& stored.path_len == packed_data.path_len
                &&& stored.parent_index == packed_data.parent_index
                &&& stored.inline_path == packed_data.inline_path
                &&& stored.metadata_flags == (if marks {
                    packed_data.metadata_flags | METADATA_INSIDE_NODE_MODULES
                } else {
                    packed_data.metadata_flags
                })
            }),
            heap_path matches Some(p) ==> (final(self).heap_paths@.len() > old(self).next_slot()
                && final(self).heap_paths@[old(self).next_slot()] == p),
            heap_path is None ==> final(self).heap_paths@ == old(self).heap_paths@,
    {
        let parent_index = packed_data.parent_index;
        let index: u32;
        let ghost slot = self.next_slot();
        if self.free_indices.len() > 0 {
            let free_index = self.free_indices.pop().unwrap();
            proof {
                assert(free_index == old(self).free_indices@.last());
            }
            self.paths.set(free_index as usize, packed_data);
            index = free_index;
        } else {
            index = self.paths.len() as u32;
            self.paths.push(packed_data);
        }
        if let Some(path) = heap_path {
            store_heap_path(&mut self.heap_paths, index as usize, path);
        }
        assert(self.free_indices@ =~= (if old(self).free_indices@.len() > 0 {
            old(self).free_indices@.drop_last()
        } else {
            old(self).free_indices@
        }));
        assert forall|k: int| 0 <= k < self.free_indices@.len() implies (#[trigger] self.free_indices@[k]) < self.paths@.len() by {
            assert(self.free_indices@[k] == old(self).free_indices@[k]);
        }
        if parent_index != 0 {
            let parent = &self.paths[(parent_index - 1) as usize];
            if parent.is_node_modules() || parent.inside_node_modules() {
                let mut data = self.paths[index as usize];
                data.metadata_flags = data.metadata_flags | METADATA_INSIDE_NODE_MODULES;
                self.paths.set(index as usize, data);
            }
        }
        index + 1
    }

    /// The record at 1-based `index`.
    pub fn get(&self, index: u32) -> (r: Option<&PackedPathData>)
        ensures
            r == (if index == 0 || index - 1 >= self.paths@.len() {
                None
            } else {
                Some(&self.paths@[index - 1])
            }),
    {
        if index == 0 {
            None
        } else if ((index - 1) as usize) < self.paths.len() {
            Some(&self.paths[(index - 1) as usize])
        } else {
            None
        }
    }

    /// The record at 1-based `index`, for updating in place.
    pub fn get_mut(&mut self, index: u32) -> (r: Option<&mut PackedPathData>)
        ensures
            match old(self).slot_of(index) {
                Some(s) => r matches Some(m) && *m == old(self).paths@[s] && final(self).paths@ == old(self).paths@.update(
                    s,
                    *final(m),
                ),
                None => r is None && *final(self) == *old(self),
            },
            final(self).heap_paths@ == old(self).heap_paths@,
            final(self).free_indices@ == old(self).free_indices@,
    {
        if index != 0 && ((index - 1) as usize) < self.paths.len() {
            Some(&mut self.paths[(index - 1) as usize])
        } else {
            None
        }
    }

    /// The heap-stored path at 1-based `index`.
    pub fn get_heap_path(&self, index: u32) -> (r: Option<&String>)
        ensures
            r == (if index == 0 || self.heap_paths@.len() == 0 || index - 1 >= self.heap_paths@.len() {
                None
            } else {
                Some(&self.heap_paths@[index - 1])
            }),
    {
        if index == 0 || self.heap_paths.len() == 0 {
            None
        } else if ((index - 1) as usize) < self.heap_paths.len() {
            Some(&self.heap_paths[(index - 1) as usize])
        } else {
            None
        }
    }

    /// The 0-based slot of the 1-based `index`, when it names a record.
    pub open spec fn slot_of(&self, index: u32) -> Option<int> {
        if index != 0 && index - 1 < self.paths@.len() {
            Some(index - 1)
        } else {
            None
        }
    }

    /// Record `metadata` in the record at `index`; nothing changes when `index` names none.
    pub fn update_metadata(&mut self, index: u32, metadata: FileMetadata)
        ensures
            match old(self).slot_of(index) {
                Some(s) => final(self).paths@ == old(self).paths@.update(s, with_metadata(old(self).paths@[s], metadata)),
                None => final(self).paths@ == old(self).paths@,
            },
            final(self).heap_paths@ == old(self).heap_paths@,
            final(self).free_indices@ == old(self).free_indices@,
    {
        if let Some(data) = self.get_mut(index) {
            data.set_metadata(metadata);
        }
    }

    /// Whether the path at `index` is a file: the recorded answer when the record has
    /// metadata; otherwise the metadata that `fetch` gives, which is then recorded. A missing
    /// file is not a file.
    pub fn is_file_fast<F: FnOnce() -> Option<FileMetadata>>(&mut self, index: u32, counters: &PerfCounters, fetch: F) -> (r: bool)
        requires
            fetch.requires(()),
        ensures
            match cached_answer(old(self).paths@, old(self).slot_of(index), METADATA_IS_FILE) {
                Some(answer) => r == answer && final(self).paths@ == old(self).paths@,
                None => exists|m: Option<FileMetadata>|
                    #[trigger] fetch.ensures((), m) && r == (m matches Some(x) && x.is_file) && final(self).paths@
                        == after_fetch(old(self).paths@, old(self).slot_of(index), m),
            },
            final(self).heap_paths@ == old(self).heap_paths@,
            final(self).free_indices@ == old(self).free_indices@,
    {
        if let Some(data) = self.get(index) {
            if let Some(is_file) = data.is_file_fast() {
                counters.cache_hit();
                return is_file;
            }
        }
        let meta = fetch();
        match meta {
            Some(m) => {
                counters.cache_hit();
                self.update_metadata(index, m);
                m.is_file
            },
            None => {
                counters.cache_miss();
                false
            },
        }
    }

    /// Whether the path at `index` is a directory (see [`PathArena::is_file_fast`]).
    pub fn is_dir_fast<F: FnOnce() -> Option<FileMetadata>>(&mut self, index: u32, counters: &PerfCounters, fetch: F) -> (r: bool)
        requires
            fetch.requires(()),
        ensures
            match cached_answer(old(self).paths@, old(self).slot_of(index), METADATA_IS_DIR) {
                Some(answer) => r == answer && final(self).paths@ == old(self).paths@,
                None => exists|m: Option<FileMetadata>|
                    #[trigger] fetch.ensures((), m) && r == (m matches Some(x) && x.is_dir) && final(self).paths@
                        == after_fetch(old(self).paths@, old(self).slot_of(index), m),
            },
            final(self).heap_paths@ == old(self).heap_paths@,
            final(self).free_indices@ == old(self).free_indices@,
    {
        if let Some(data) = self.get(index) {
            if let Some(is_dir) = data.is_dir_fast() {
                counters.cache_hit();
                return is_dir;
            }
        }
        let meta = fetch();
        match meta {
            Some(m) => {
                counters.cache_hit();
                self.update_metadata(index, m);
                m.is_dir
            },
            None => {
                counters.cache_miss();
                false
            },
        }
    }
}

/// `rec` with `metadata` recorded.
pub open spec fn with_metadata(rec: PackedPathData, metadata: FileMetadata) -> PackedPathData {
    PackedPathData {
        metadata_flags: (rec.metadata_flags | METADATA_HAS_METADATA | (if metadata.is_file {
            METADATA_IS_FILE
        } else {
            0u8
        }) | (if metadata.is_dir {
            METADATA_IS_DIR
        } else {
            0u8
        }) | (if metadata.is_symlink {
            METADATA_IS_SYMLINK
        } else {
            0u8
        })) as u8,
        ..rec
    }
}

/// The recorded answer for the flag `bit` of the record in `slot`, when it has metadata.
pub open spec fn cached_answer(paths: Seq<PackedPathData>, slot: Option<int>, bit: u8) -> Option<bool> {
    match slot {
        Some(s) => if flag_set(paths[s].metadata_flags, METADATA_HAS_METADATA) {
            Some(flag_set(paths[s].metadata_flags, bit))
        } else {
            None
        },
        None => None,
    }
}

/// The records after metadata `m` was fetched for `slot`: recorded when there is some.
pub open spec fn after_fetch(paths: Seq<PackedPathData>, slot: Option<int>, m: Option<FileMetadata>) -> Seq<PackedPathData> {
    match (slot, m) {
        (Some(s), Some(meta)) => paths.update(s, with_metadata(paths[s], meta)),
        _ => paths,
    }
}

/// Once metadata has been fetched for a record that had none, the record answers with it: the
/// next query finds the answer without fetching again.
pub proof fn law_fetched_metadata_is_remembered(paths: Seq<PackedPathData>, s: int, meta: FileMetadata)
    requires
        0 <= s < paths.len(),
        paths[s].metadata_flags & (METADATA_IS_FILE | METADATA_IS_DIR | METADATA_IS_SYMLINK | METADATA_HAS_METADATA) == 0,
    ensures
        cached_answer(after_fetch(paths, Some(s), Some(meta)), Some(s), METADATA_IS_FILE) == Some(meta.is_file),
        cached_answer(after_fetch(paths, Some(s), Some(meta)), Some(s), METADATA_IS_DIR) == Some(meta.is_dir),
        cached_answer(after_fetch(paths, Some(s), Some(meta)), Some(s), METADATA_IS_SYMLINK) == Some(meta.is_symlink),
{
    law_set_metadata_then_query(paths[s].metadata_flags, meta);
}

} // verus!
