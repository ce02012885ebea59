//! Module-resolution building blocks: path normalization, `file:` URLs, package maps,
//! `package.json` field access, aliases, declaration-file lookups, and the path cache with its
//! canonicalization. Lookups that need the file system are state machines that name each probe
//! and take its answer back.
pub mod alias;
pub mod binding;
pub mod cache;
pub mod context;
pub mod dts;
pub mod error;
pub mod file_system;
pub mod file_url;
pub mod json;
pub mod node_path;
pub mod percent;
pub mod perf;
pub mod text;
pub mod package_json;
pub mod package_map;
pub mod path;
pub mod path_laws;
pub mod resolution;

pub use file_system::FileMetadata;
pub use context::ResolveContext;
pub use error::{CircularPathBufs, IOError, IoErrorKind, JSONError, ResolveError, SpecifierError, TsconfigLoadError};
pub use cache::{cached_meta::CachedMeta, cached_symlink::CachedSymlink, hasher::IdentityHasher, once_arc::OnceArc};
pub use perf::PerfCounters;
