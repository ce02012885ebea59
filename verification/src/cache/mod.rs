//! The resolver's path cache: its lazily-populated slots, its arena of path records,
//! canonicalization, and the decisions around file-system probes.
pub mod canonicalize;
pub mod cached_meta;
pub mod cached_symlink;
pub mod hasher;
pub mod once_arc;
pub mod package_json_search;
pub mod path_arena;
pub mod path_cache;
pub mod probe;
