//! What the path cache decides around a file-system probe: which metadata answers "is it a
//! file / a directory" (a link is followed), which dependency the probe records, and which file
//! a tsconfig path names.
use vstd::prelude::*;

use crate::context::{recorded, same_but_dependencies, ResolveContext};
use crate::error::{IOError, IoErrorKind, ResolveError, TsconfigLoadError};
use crate::file_system::FileMetadata;
use crate::path::{push_path, spec_parent, spec_push};

verus! {

/// The metadata of `path` with links followed, from its own metadata `link` (links not
/// followed): a path that is not a link answers for itself. For a link, the metadata of its
/// canonical target (`canonical`, asked only when `symlinks` is on) answers when there is
/// some; otherwise the metadata of the path with the link followed (`stat`).
pub fn followed_metadata<C: FnOnce() -> Option<FileMetadata>, S: FnOnce() -> Option<FileMetadata>>(
    link: Option<FileMetadata>,
    symlinks: bool,
    canonical: C,
    stat: S,
) -> (r: Option<FileMetadata>)
    requires
        canonical.requires(()),
        stat.requires(()),
    ensures
        !(link matches Some(m) && m.is_symlink) ==> r == link,
        (link matches Some(m) && m.is_symlink) && symlinks ==> exists|c: Option<FileMetadata>|
            #[trigger] canonical.ensures((), c) && (c is Some ==> r == c) && (c is None ==> stat.ensures((), r)),
        (link matches Some(m) && m.is_symlink) && !symlinks ==> stat.ensures((), r),
{
    match link {
        Some(m) => {
            if !m.is_symlink {
                return link;
            }
        },
        None => {
            return None;
        },
    }
    let followed = if symlinks {
        canonical()
    } else {
        None
    };
    match followed {
        Some(f) => Some(f),
        None => stat(),
    }
}

/// Whether a path with the followed metadata `meta` is a file, as the path cache answers it:
/// a file is recorded as a file dependency; anything else (a directory, or nothing at all) as
/// a missing dependency.
pub fn probe_is_file(ctx: &mut ResolveContext, path: &str, meta: Option<FileMetadata>) -> (r: bool)
    ensures
        r == (meta matches Some(m) && m.is_file),
        same_but_dependencies(*old(ctx), *final(ctx)),
        r ==> recorded(old(ctx).file_dependencies, final(ctx).file_dependencies, path@)
            && final(ctx).missing_dependencies == old(ctx).missing_dependencies,
        !r ==> recorded(old(ctx).missing_dependencies, final(ctx).missing_dependencies, path@)
            && final(ctx).file_dependencies == old(ctx).file_dependencies,
{
    let is_file = match meta {
        Some(m) => m.is_file,
        None => false,
    };
    if is_file {
        ctx.add_file_dependency(path);
    } else {
        ctx.add_missing_dependency(path);
    }
    is_file
}

/// Whether a path with the metadata `meta` is a file, as the file-system cache answers it: a
/// path that exists is recorded as a file dependency, whatever it is; a missing one as a missing
/// dependency.
pub fn probe_is_file_recording_existing(ctx: &mut ResolveContext, path: &str, meta: Option<FileMetadata>) -> (r: bool)
    ensures
        r == (meta matches Some(m) && m.is_file),
        same_but_dependencies(*old(ctx), *final(ctx)),
        meta is Some ==> recorded(old(ctx).file_dependencies, final(ctx).file_dependencies, path@)
            && final(ctx).missing_dependencies == old(ctx).missing_dependencies,
        meta is None ==> recorded(old(ctx).missing_dependencies, final(ctx).missing_dependencies, path@)
            && final(ctx).file_dependencies == old(ctx).file_dependencies,
{
    match meta {
        Some(m) => {
            ctx.add_file_dependency(path);
            m.is_file
        },
        None => {
            ctx.add_missing_dependency(path);
            false
        },
    }
}

/// Whether a path with the metadata `meta` is a directory: a missing path is recorded as a
/// missing dependency; an existing one records nothing.
pub fn probe_is_dir(ctx: &mut ResolveContext, path: &str, meta: Option<FileMetadata>) -> (r: bool)
    ensures
        r == (meta matches Some(m) && m.is_dir),
        meta is Some ==> *final(ctx) == *old(ctx),
        meta is None ==> same_but_dependencies(*old(ctx), *final(ctx))
            && recorded(old(ctx).missing_dependencies, final(ctx).missing_dependencies, path@)
            && final(ctx).file_dependencies == old(ctx).file_dependencies,
{
    match meta {
        Some(m) => m.is_dir,
        None => {
            ctx.add_missing_dependency(path);
            false
        },
    }
}

/// Whether the `package.json` at `package_json_path` is the one of the directory `dir` (and
/// not of one of its ancestors).
pub fn package_json_belongs_to(package_json_path: &str, dir: &str) -> (r: bool)
    ensures
        r == (spec_parent(package_json_path@) == Some(dir@)),
{
    match crate::path::parent(package_json_path) {
        Some(p) => crate::json::str_eq(p.as_str(), dir),
        None => false,
    }
}

/// The file that holds the tsconfig named by `path`, whose metadata (links followed) is
/// `meta`: the path itself when it is a file, its `tsconfig.json` when it is a directory, and
/// otherwise the path with `.json` appended.
pub open spec fn spec_tsconfig_location(path: Seq<char>, meta: Option<FileMetadata>) -> Seq<char> {
    match meta {
        Some(m) => if m.is_file {
            path
        } else if m.is_dir {
            spec_push(path, "tsconfig.json"@)
        } else {
            path + ".json"@
        },
        None => path + ".json"@,
    }
}

/// See [`spec_tsconfig_location`].
pub fn tsconfig_location(path: &str, meta: Option<FileMetadata>) -> (r: String)
    ensures
        r@ == spec_tsconfig_location(path@, meta),
{
    match meta {
        Some(m) => {
            if m.is_file {
                return path.to_owned();
            }
            if m.is_dir {
                return push_path(path, "tsconfig.json");
            }
        },
        None => {},
    }
    path.to_owned().concat(".json")
}

/// The error for a tsconfig that could not be read from `tsconfig_path` (where the tsconfig
/// named by `path` lives), the read having failed with `error`: when the file is not there
/// (`NotFound`), a missing tsconfig, named by `path`; any other failure is a failed load of
/// `tsconfig_path`, for the reason `error`.
pub fn tsconfig_read_error(path: &str, tsconfig_path: &str, error: IOError) -> (r: ResolveError)
    ensures
        error.kind == IoErrorKind::NotFound ==> (r matches ResolveError::TsconfigNotFound(p) && p@ == path@),
        error.kind != IoErrorKind::NotFound ==> (r matches ResolveError::TsconfigLoadFailed { path: p, source }
            && p@ == tsconfig_path@ && source == TsconfigLoadError::IOError(error)),
{
    if error.kind == IoErrorKind::NotFound {
        ResolveError::TsconfigNotFound(path.to_owned())
    } else {
        ResolveError::TsconfigLoadFailed { path: tsconfig_path.to_owned(), source: TsconfigLoadError::IOError(error) }
    }
}

} // verus!
