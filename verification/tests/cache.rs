use std::sync::Arc;

use std::sync::atomic::Ordering;
use std::time::Duration;

use rspack_resolver::cache::path_arena::{PackedPathData, PathArena};
use rspack_resolver::cache::path_cache::{Cache, PathHandle};
use rspack_resolver::cache::probe::{
    followed_metadata, package_json_belongs_to, probe_is_dir, probe_is_file, probe_is_file_recording_existing,
    tsconfig_location, tsconfig_read_error,
};
use rspack_resolver::context::ResolveContext;
use rspack_resolver::{CachedMeta, CachedSymlink, FileMetadata, IdentityHasher, OnceArc, PerfCounters};
use rspack_resolver::{IOError, IoErrorKind, ResolveError, TsconfigLoadError};

fn parts(meta: FileMetadata) -> (bool, bool, bool) {
    (meta.is_file(), meta.is_dir(), meta.is_symlink())
}

#[test]
fn is_two_bytes() {
    assert_eq!(std::mem::size_of::<CachedMeta>(), 2);
}

#[test]
fn roundtrips_and_caches() {
    let cases = [
        None,
        Some(FileMetadata::new(false, false, false)),
        Some(FileMetadata::new(true, false, false)),
        Some(FileMetadata::new(false, true, false)),
        Some(FileMetadata::new(false, false, true)),
    ];
    for expected in cases {
        let meta = CachedMeta::new();
        assert_eq!(meta.link_or_init(|| expected).map(parts), expected.map(parts));
        // Once populated, the initializer is never called again.
        assert_eq!(
            meta.link_or_init(|| panic!("must not be called")).map(parts),
            expected.map(parts)
        );
    }
}

#[test]
fn link_and_followed_are_separate_slots() {
    let meta = CachedMeta::new();
    meta.link_or_init(|| Some(FileMetadata::new(false, false, true)));
    meta.followed_or_init(|| Some(FileMetadata::new(false, true, false)));
    assert_eq!(meta.link_or_init(|| panic!()).map(parts), Some((false, false, true)));
    assert_eq!(meta.followed_or_init(|| panic!()).map(parts), Some((false, true, false)));
}

#[test]
fn all_flags_roundtrip_through_a_slot() {
    let meta = CachedMeta::default();
    let all = Some(FileMetadata::new(true, true, true));
    assert_eq!(meta.followed_or_init(|| all).map(parts), Some((true, true, true)));
    assert_eq!(meta.followed_or_init(|| None).map(parts), Some((true, true, true)));
    assert_eq!(meta.link_or_init(|| None).map(parts), None);
    assert_eq!(meta.link_or_init(|| all).map(parts), None);
}

#[test]
fn cached_symlink_is_one_byte() {
    assert_eq!(std::mem::size_of::<CachedSymlink>(), 1);
}

#[test]
fn returns_none_when_uninitialized() {
    let cell = CachedSymlink::new();
    assert!(cell.get().is_none());
}

#[test]
fn roundtrips_both_states() {
    let cell = CachedSymlink::new();
    cell.set(true);
    assert_eq!(cell.get(), Some(true));
    let cell = CachedSymlink::new();
    cell.set(false);
    assert_eq!(cell.get(), Some(false));
}

#[test]
fn symlink_answer_can_be_overwritten() {
    let cell = CachedSymlink::default();
    assert_eq!(cell.get(), None);
    cell.set(false);
    cell.set(true);
    assert_eq!(cell.get(), Some(true));
}

#[test]
fn uninitialized_slot_is_not_initialized() {
    let slot: OnceArc<i32> = OnceArc::new();
    assert!(!slot.is_initialized());
}

#[test]
fn initialize_with_none_then_observe() {
    let slot: OnceArc<i32> = OnceArc::new();
    let computed: Result<_, ()> = slot.get_or_try_init(|| Ok(None));
    assert!(computed.unwrap().is_none());
    assert!(slot.is_initialized());
    assert!(slot.get().is_none());
}

#[test]
fn initialize_with_some_then_observe() {
    let slot: OnceArc<i32> = OnceArc::new();
    let computed: Result<_, ()> = slot.get_or_try_init(|| Ok(Some(Arc::new(42))));
    let arc = computed.unwrap().unwrap();
    assert_eq!(*arc, 42);
    let observed = slot.get().unwrap();
    assert_eq!(*observed, 42);
    // Two outstanding strong refs + one parked in the slot.
    assert_eq!(Arc::strong_count(&arc), 3);
    drop(observed);
    assert_eq!(Arc::strong_count(&arc), 2);
}

#[test]
fn get_or_try_init_caches_first_result() {
    let slot: OnceArc<i32> = OnceArc::new();
    let _: Result<_, ()> = slot.get_or_try_init(|| Ok(Some(Arc::new(1))));
    let second: Result<_, ()> =
        slot.get_or_try_init(|| panic!("must not re-run on an initialized slot"));
    assert_eq!(*second.unwrap().unwrap(), 1);
}

#[test]
fn drop_releases_strong_ref() {
    let arc = Arc::new(99_i32);
    let slot: OnceArc<i32> = OnceArc::new();
    let _: Result<_, ()> = slot.get_or_try_init(|| Ok(Some(Arc::clone(&arc))));
    assert_eq!(Arc::strong_count(&arc), 2);
    drop(slot);
    assert_eq!(Arc::strong_count(&arc), 1);
}

#[test]
fn propagates_initializer_error() {
    let slot: OnceArc<i32> = OnceArc::new();
    let r: Result<_, &'static str> = slot.get_or_try_init(|| Err("boom"));
    assert_eq!(r.unwrap_err(), "boom");
    // The slot stays uninitialized so a subsequent attempt can retry.
    assert!(!slot.is_initialized());
    let r: Result<_, &'static str> = slot.get_or_try_init(|| Ok(Some(Arc::new(7))));
    assert_eq!(*r.unwrap().unwrap(), 7);
}

#[test]
fn packed_path_data() {
    let data = PackedPathData::new("/a/node_modules", 7, 3);
    assert_eq!(data.path_hash, 7);
    assert_eq!(data.parent_index, 3);
    assert_eq!(data.path_len, 15);
    assert!(data.is_node_modules());
    assert!(!data.inside_node_modules());
    assert!(data.path_fits_inline());
    assert_eq!(data.get_inline_path(), Some(b"/a/node_modules".to_vec()));
    assert_eq!(data.is_file_fast(), None);
    let long = "/x".repeat(30);
    let long_data = PackedPathData::new(&long, 0, 0);
    assert!(!long_data.path_fits_inline());
    assert_eq!(long_data.get_inline_path(), None);
    assert_eq!(&long_data.inline_path[..], &long.as_bytes()[..48]);

    let mut data = data;
    data.set_metadata(FileMetadata::new(false, true, false));
    assert!(data.has_metadata());
    assert_eq!(data.is_file_fast(), Some(false));
    assert_eq!(data.is_dir_fast(), Some(true));
    assert_eq!(data.is_symlink_fast(), Some(false));
    assert!(data.is_node_modules());
}

#[test]
fn arena_marks_paths_inside_node_modules() {
    let mut arena = PathArena::new();
    let root = arena.insert(PackedPathData::new("/a", 1, 0), None);
    let nm = arena.insert(PackedPathData::new("/a/node_modules", 2, root), None);
    let pkg = arena.insert(PackedPathData::new("/a/node_modules/pkg", 3, nm), Some("/a/node_modules/pkg".to_string()));
    let deep = arena.insert(PackedPathData::new("/a/node_modules/pkg/x", 4, pkg), None);
    assert_eq!((root, nm, pkg, deep), (1, 2, 3, 4));
    assert!(!arena.get(root).unwrap().inside_node_modules());
    assert!(!arena.get(nm).unwrap().inside_node_modules());
    assert!(arena.get(pkg).unwrap().inside_node_modules());
    assert!(arena.get(deep).unwrap().inside_node_modules());
    assert!(arena.get(0).is_none());
    assert!(arena.get(5).is_none());
    assert_eq!(arena.get_heap_path(pkg).map(String::as_str), Some("/a/node_modules/pkg"));
}

#[test]
fn arena_remembers_fetched_metadata() {
    let counters = PerfCounters::default();
    let mut arena = PathArena::new();
    let index = arena.insert(PackedPathData::new("/a/file.js", 1, 0), None);
    assert!(arena.is_file_fast(index, &counters, || Some(FileMetadata::new(true, false, false))));
    assert!(arena.is_file_fast(index, &counters, || panic!("must not fetch again")));
    assert!(!arena.is_dir_fast(index, &counters, || panic!("must not fetch again")));
    assert_eq!(counters.cache_hits.load(Ordering::Relaxed), 3);
    let missing = arena.insert(PackedPathData::new("/a/missing.js", 2, 0), None);
    assert!(!arena.is_file_fast(missing, &counters, || None));
    assert_eq!(counters.cache_misses.load(Ordering::Relaxed), 1);
    assert!(arena.get(missing).unwrap().is_file_fast().is_none());
    assert!(!arena.is_dir_fast(99, &counters, || Some(FileMetadata::new(false, false, false))));
}

#[test]
fn identity_hasher_keeps_the_last_value() {
    let mut hasher = IdentityHasher::default();
    assert_eq!(hasher.finish(), 0);
    hasher.write_u64(42);
    hasher.write_u64(7);
    assert_eq!(hasher.finish(), 7);
}

#[test]
fn perf_counters_count() {
    let counters = PerfCounters::default();
    counters.cache_hit();
    counters.cache_hit();
    counters.cache_miss();
    counters.fs_operation(Duration::from_nanos(1500));
    counters.resolution(Duration::from_micros(2));
    counters.inline_path_allocation();
    counters.heap_path_allocation();
    counters.path_normalization();
    counters.package_json_read();
    counters.tsconfig_read();
    assert_eq!(counters.cache_hits.load(Ordering::Relaxed), 2);
    assert_eq!(counters.cache_misses.load(Ordering::Relaxed), 1);
    assert_eq!(counters.fs_operations.load(Ordering::Relaxed), 1);
    assert_eq!(counters.fs_time_nanos.load(Ordering::Relaxed), 1500);
    assert_eq!(counters.resolution_time_nanos.load(Ordering::Relaxed), 2000);
    assert_eq!(counters.inline_path_allocations.load(Ordering::Relaxed), 1);
    counters.reset();
    assert_eq!(counters.cache_hits.load(Ordering::Relaxed), 0);
    assert_eq!(counters.fs_time_nanos.load(Ordering::Relaxed), 0);
}

#[test]
fn probes_record_dependencies() {
    let mut ctx = ResolveContext::default();
    ctx.init_file_dependencies();
    let file = FileMetadata::new(true, false, false);
    let dir = FileMetadata::new(false, true, false);
    assert!(probe_is_file(&mut ctx, "/a/f.js", Some(file)));
    assert!(!probe_is_file(&mut ctx, "/a", Some(dir)));
    assert!(!probe_is_file(&mut ctx, "/missing", None));
    assert_eq!(ctx.file_dependencies, Some(vec!["/a/f.js".to_string()]));
    assert_eq!(ctx.missing_dependencies, Some(vec!["/a".to_string(), "/missing".to_string()]));

    let mut fs_ctx = ResolveContext::default();
    fs_ctx.init_file_dependencies();
    assert!(!probe_is_file_recording_existing(&mut fs_ctx, "/a", Some(dir)));
    assert!(!probe_is_file_recording_existing(&mut fs_ctx, "/missing", None));
    assert_eq!(fs_ctx.file_dependencies, Some(vec!["/a".to_string()]));
    assert_eq!(fs_ctx.missing_dependencies, Some(vec!["/missing".to_string()]));

    let mut dir_ctx = ResolveContext::default();
    dir_ctx.init_file_dependencies();
    assert!(probe_is_dir(&mut dir_ctx, "/a", Some(dir)));
    assert!(!probe_is_dir(&mut dir_ctx, "/a/f.js", Some(file)));
    assert!(!probe_is_dir(&mut dir_ctx, "/missing", None));
    assert_eq!(dir_ctx.file_dependencies, Some(vec![]));
    assert_eq!(dir_ctx.missing_dependencies, Some(vec!["/missing".to_string()]));

    let mut quiet = ResolveContext::default();
    assert!(probe_is_file(&mut quiet, "/a/f.js", Some(file)));
    assert_eq!(quiet.file_dependencies, None);
}

#[test]
fn followed_metadata_follows_links() {
    let file = FileMetadata::new(true, false, false);
    let dir = FileMetadata::new(false, true, false);
    let link = FileMetadata::new(false, false, true);
    assert_eq!(followed_metadata(Some(file), true, || panic!("not a link"), || panic!("not a link")), Some(file));
    assert_eq!(followed_metadata(None, true, || Some(dir), || Some(dir)), None);
    assert_eq!(followed_metadata(Some(link), true, || Some(dir), || Some(file)), Some(dir));
    assert_eq!(followed_metadata(Some(link), true, || None, || Some(file)), Some(file));
    assert_eq!(followed_metadata(Some(link), false, || panic!("links are not followed"), || Some(file)), Some(file));
}

#[test]
fn package_json_of_its_own_directory() {
    assert!(package_json_belongs_to("/p/pkg/package.json", "/p/pkg"));
    assert!(!package_json_belongs_to("/p/package.json", "/p/pkg"));
    assert!(!package_json_belongs_to("/", "/"));
}

#[test]
fn tsconfig_locations() {
    let file = FileMetadata::new(true, false, false);
    let dir = FileMetadata::new(false, true, false);
    assert_eq!(tsconfig_location("/p/tsconfig.base.json", Some(file)), "/p/tsconfig.base.json");
    assert_eq!(tsconfig_location("/p", Some(dir)), "/p/tsconfig.json");
    assert_eq!(tsconfig_location("/p/base", None), "/p/base.json");
}

#[test]
fn interned_paths() {
    let mut cache = Cache::new();
    let handle = cache.value("/foo/bar/baz");
    assert_eq!(cache.path(handle), "/foo/bar/baz");
    let parent = cache.parent(handle).expect("should have parent");
    assert_eq!(cache.path(parent), "/foo/bar");
    let grandparent = cache.parent(parent).expect("should have grandparent");
    assert_eq!(cache.path(grandparent), "/foo");
    let root = cache.parent(grandparent).expect("the root");
    assert_eq!(cache.path(root), "/");
    assert_eq!(cache.parent(root), None);

    let again = cache.value("/foo/bar/baz");
    assert_eq!(again, handle);
    assert_eq!(cache.value("/foo/bar"), parent);
    assert_ne!(cache.value("/foo/baz"), parent);

    let nm = cache.value("/foo/node_modules");
    assert!(cache.is_node_modules(nm));
    let inside = cache.value("/foo/node_modules/bar");
    assert!(!cache.is_node_modules(inside));
    assert!(cache.inside_node_modules(inside));
    assert!(!cache.inside_node_modules(handle));

    cache.clear();
    let fresh = cache.value("/foo/bar");
    assert_eq!(cache.path(fresh), "/foo/bar");
    assert_eq!(fresh, PathHandle(2));
}

fn io_error(kind: IoErrorKind) -> IOError {
    IOError { kind, message: "failed".to_string() }
}

#[test]
fn tsconfig_read_errors() {
    let missing = tsconfig_read_error("/p/base", "/p/base.json", io_error(IoErrorKind::NotFound));
    assert!(matches!(missing, ResolveError::TsconfigNotFound(p) if p == "/p/base"));
    let denied = tsconfig_read_error("/p", "/p/tsconfig.json", io_error(IoErrorKind::PermissionDenied));
    match denied {
        ResolveError::TsconfigLoadFailed { path, source: TsconfigLoadError::IOError(e) } => {
            assert_eq!(path, "/p/tsconfig.json");
            assert_eq!(e.kind, IoErrorKind::PermissionDenied);
        }
        other => panic!("expected a failed load, got {other:?}"),
    }
    let other = tsconfig_read_error("/p", "/p/tsconfig.json", io_error(IoErrorKind::Other));
    assert!(matches!(other, ResolveError::TsconfigLoadFailed { path, .. } if path == "/p/tsconfig.json"));
}
