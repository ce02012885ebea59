//! The order in which a declaration-file resolution tries its lookups, from the directory of the
//! importing file: the tsconfig `paths` first (for a specifier that is neither relative nor
//! absolute), then the lookup that the specifier's route calls for (see [`spec_dts_route`]):
//! the joined path for a relative one, the package `imports` for `#x`, nothing for a URI, and
//! for a bare specifier the package itself, then `node_modules`. What a lookup finds is
//! finalized into the resolution; when nothing is found the specifier is not found.
//!
//! The resolution decides and the resolver does the work: each step is a lookup that the
//! resolver performs and reports back.
use vstd::prelude::*;

use crate::context::ResolveContext;
use std::sync::Arc;

use crate::dts::{dts_module_type, dts_route, spec_dts_module_type, spec_dts_route, DtsRoute};
use crate::package_json::PackageJson;
use crate::error::ResolveError;
use crate::path::{parent, spec_join, spec_parent, PathUtil};
use crate::resolution::{opt_string_view, Resolution};

verus! {

/// What a declaration-file resolution does next.
pub enum DtsAction {
    /// Look `specifier` up through the tsconfig `paths`, from `dir`.
    TsconfigPaths { dir: String, specifier: String },
    /// Look the joined path `candidate` up as a file or a directory.
    Relative { candidate: String },
    /// Look `specifier` up through the `imports` of the package of `dir`.
    PackageImports { dir: String, specifier: String },
    /// Look `specifier` up as a path of the package of `dir` itself.
    PackageSelf { dir: String, specifier: String },
    /// Look `specifier` up in the `node_modules` directories of `dir` and its ancestors.
    NodeModules { dir: String, specifier: String },
    /// Turn the declaration file found at this path into the resolution.
    Finalize(String),
    /// The resolution is over.
    Done(Result<Resolution, ResolveError>),
}

/// What the resolver reports back.
pub enum DtsEvent {
    /// The outcome of a lookup: what it found, if anything.
    Found(Result<Option<String>, ResolveError>),
    /// The outcome of finalizing.
    Finalized(Result<Resolution, ResolveError>),
}

/// The lookup that a resolution waits on.
#[derive(Clone, Copy, PartialEq, Eq, Structural)]
pub enum DtsStage {
    TsconfigPaths,
    Relative,
    PackageImports,
    PackageSelf,
    NodeModules,
    Finalize,
    Over,
}

/// [`DtsAction`] with its texts as sequences.
pub enum DtsStep {
    TsconfigPaths { dir: Seq<char>, specifier: Seq<char> },
    Relative { candidate: Seq<char> },
    PackageImports { dir: Seq<char>, specifier: Seq<char> },
    PackageSelf { dir: Seq<char>, specifier: Seq<char> },
    NodeModules { dir: Seq<char>, specifier: Seq<char> },
    Finalize(Seq<char>),
    /// Over, with the specifier not found.
    NotFound(Seq<char>),
    /// Over, with any other outcome.
    Done(Result<Resolution, ResolveError>),
}

/// The step of a resolution that is over with `result`.
pub open spec fn done_step(result: Result<Resolution, ResolveError>) -> DtsStep {
    match result {
        Err(ResolveError::NotFound(s)) => DtsStep::NotFound(s@),
        _ => DtsStep::Done(result),
    }
}

pub open spec fn step_of(a: DtsAction) -> DtsStep {
    match a {
        DtsAction::TsconfigPaths { dir, specifier } => DtsStep::TsconfigPaths { dir: dir@, specifier: specifier@ },
        DtsAction::Relative { candidate } => DtsStep::Relative { candidate: candidate@ },
        DtsAction::PackageImports { dir, specifier } => DtsStep::PackageImports { dir: dir@, specifier: specifier@ },
        DtsAction::PackageSelf { dir, specifier } => DtsStep::PackageSelf { dir: dir@, specifier: specifier@ },
        DtsAction::NodeModules { dir, specifier } => DtsStep::NodeModules { dir: dir@, specifier: specifier@ },
        DtsAction::Finalize(p) => DtsStep::Finalize(p@),
        DtsAction::Done(r) => done_step(r),
    }
}

/// The stage that a step waits in.
pub open spec fn stage_of(s: DtsStep) -> DtsStage {
    match s {
        DtsStep::TsconfigPaths { .. } => DtsStage::TsconfigPaths,
        DtsStep::Relative { .. } => DtsStage::Relative,
        DtsStep::PackageImports { .. } => DtsStage::PackageImports,
        DtsStep::PackageSelf { .. } => DtsStage::PackageSelf,
        DtsStep::NodeModules { .. } => DtsStage::NodeModules,
        DtsStep::Finalize(_) => DtsStage::Finalize,
        DtsStep::NotFound(_) => DtsStage::Over,
        DtsStep::Done(_) => DtsStage::Over,
    }
}

/// The directory that a file's imports are resolved from: its parent, or the path itself when
/// it has none.
pub open spec fn spec_dts_dir(containing_file: Seq<char>) -> Seq<char> {
    match spec_parent(containing_file) {
        Some(p) => p,
        None => containing_file,
    }
}

/// The step that the route of `specifier` starts with, from `dir`.
pub open spec fn route_step(dir: Seq<char>, specifier: Seq<char>) -> DtsStep {
    match spec_dts_route(specifier) {
        DtsRoute::Relative => DtsStep::Relative { candidate: spec_join(dir, specifier) },
        DtsRoute::PackageImports => DtsStep::PackageImports { dir, specifier },
        DtsRoute::Scheme => DtsStep::NotFound(specifier),
        DtsRoute::Bare => DtsStep::PackageSelf { dir, specifier },
    }
}

/// The first step: the tsconfig `paths` for a specifier that does not start with `.` or `/`,
/// otherwise the route.
pub open spec fn first_step(dir: Seq<char>, specifier: Seq<char>) -> DtsStep {
    if specifier.len() > 0 && (specifier[0] == '.' || specifier[0] == '/') {
        route_step(dir, specifier)
    } else {
        DtsStep::TsconfigPaths { dir, specifier }
    }
}

/// The step after the lookup of `stage` reported `found`.
pub open spec fn next_step(
    stage: DtsStage,
    dir: Seq<char>,
    specifier: Seq<char>,
    found: Result<Option<String>, ResolveError>,
) -> DtsStep {
    match found {
        Err(e) => done_step(Err(e)),
        Ok(Some(p)) => DtsStep::Finalize(p@),
        Ok(None) => match stage {
            DtsStage::TsconfigPaths => route_step(dir, specifier),
            DtsStage::PackageSelf => DtsStep::NodeModules { dir, specifier },
            _ => DtsStep::NotFound(specifier),
        },
    }
}

/// A declaration-file resolution under way.
pub struct DtsResolution {
    dir: String,
    specifier: String,
    stage: DtsStage,
}

impl DtsResolution {
    pub closed spec fn dir(self) -> Seq<char> {
        self.dir@
    }

    pub closed spec fn specifier(self) -> Seq<char> {
        self.specifier@
    }

    pub closed spec fn stage(self) -> DtsStage {
        self.stage
    }

    /// Start resolving `specifier` (its query and fragment split off, and recorded in `ctx`)
    /// from the file `containing_file`.
    pub fn start(
        containing_file: &str,
        specifier: &str,
        query: Option<&str>,
        fragment: Option<&str>,
        ctx: &mut ResolveContext,
    ) -> (r: (Self, DtsAction))
        ensures
            query matches Some(q) ==> final(ctx).query matches Some(x) && x@ == q@,
            query is None ==> final(ctx).query == old(ctx).query,
            fragment matches Some(f) ==> final(ctx).fragment matches Some(x) && x@ == f@,
            fragment is None ==> final(ctx).fragment == old(ctx).fragment,
            final(ctx).fully_specified == old(ctx).fully_specified,
            final(ctx).file_dependencies == old(ctx).file_dependencies,
            final(ctx).missing_dependencies == old(ctx).missing_dependencies,
            final(ctx).resolving_alias == old(ctx).resolving_alias,
            final(ctx).depth == old(ctx).depth,
            final(ctx).resolve_file == old(ctx).resolve_file,
            r.0.dir() == spec_dts_dir(containing_file@),
            r.0.specifier() == specifier@,
            step_of(r.1) == first_step(spec_dts_dir(containing_file@), specifier@),
            r.0.stage() == stage_of(step_of(r.1)),
    {
        ctx.with_query_fragment(query, fragment);
        let dir = match parent(containing_file) {
            Some(p) => p,
            None => containing_file.to_owned(),
        };
        let mut resolution = DtsResolution { dir, specifier: specifier.to_owned(), stage: DtsStage::Over };
        let starts_relative = match dts_route(specifier) {
            DtsRoute::Relative => true,
            _ => false,
        };
        let action = if starts_relative {
            resolution.route()
        } else {
            DtsAction::TsconfigPaths { dir: resolution.dir.clone(), specifier: resolution.specifier.clone() }
        };
        resolution.stage = if starts_relative {
            resolution.stage
        } else {
            DtsStage::TsconfigPaths
        };
        (resolution, action)
    }

    /// The step of the route, and the stage that waits on it.
    fn route(&mut self) -> (r: DtsAction)
        ensures
            final(self).dir() == old(self).dir(),
            final(self).specifier() == old(self).specifier(),
            step_of(r) == route_step(old(self).dir(), old(self).specifier()),
            final(self).stage() == stage_of(step_of(r)),
    {
        let action = match dts_route(self.specifier.as_str()) {
            DtsRoute::Relative => DtsAction::Relative { candidate: self.dir.as_str().normalize_with(self.specifier.as_str()) },
            DtsRoute::PackageImports => DtsAction::PackageImports {
                dir: self.dir.clone(),
                specifier: self.specifier.clone(),
            },
            DtsRoute::Scheme => DtsAction::Done(Err(not_found(self.specifier.as_str()))),
            DtsRoute::Bare => DtsAction::PackageSelf { dir: self.dir.clone(), specifier: self.specifier.clone() },
        };
        self.stage = match dts_route(self.specifier.as_str()) {
            DtsRoute::Relative => DtsStage::Relative,
            DtsRoute::PackageImports => DtsStage::PackageImports,
            DtsRoute::Scheme => DtsStage::Over,
            DtsRoute::Bare => DtsStage::PackageSelf,
        };
        action
    }

    /// The resolver reports the outcome of the step it was asked for: a lookup's outcome while
    /// a lookup is pending, the outcome of finalizing while that is pending.
    pub fn on_event(&mut self, event: DtsEvent) -> (r: DtsAction)
        requires
            old(self).stage() != DtsStage::Over,
            old(self).stage() == DtsStage::Finalize <==> event is Finalized,
        ensures
            final(self).dir() == old(self).dir(),
            final(self).specifier() == old(self).specifier(),
            final(self).stage() == stage_of(step_of(r)),
            event matches DtsEvent::Found(found) ==> step_of(r) == next_step(
                old(self).stage(),
                old(self).dir(),
                old(self).specifier(),
                found,
            ),
            event matches DtsEvent::Finalized(result) ==> step_of(r) == done_step(result),
    {
        match event {
            DtsEvent::Finalized(result) => {
                self.stage = DtsStage::Over;
                DtsAction::Done(result)
            },
            DtsEvent::Found(Err(e)) => {
                self.stage = DtsStage::Over;
                DtsAction::Done(Err(e))
            },
            DtsEvent::Found(Ok(Some(p))) => {
                self.stage = DtsStage::Finalize;
                DtsAction::Finalize(p)
            },
            DtsEvent::Found(Ok(None)) => {
                match self.stage {
                    DtsStage::TsconfigPaths => self.route(),
                    DtsStage::PackageSelf => {
                        self.stage = DtsStage::NodeModules;
                        DtsAction::NodeModules { dir: self.dir.clone(), specifier: self.specifier.clone() }
                    },
                    _ => {
                        self.stage = DtsStage::Over;
                        DtsAction::Done(Err(not_found(self.specifier.as_str())))
                    },
                }
            },
        }
    }
}

/// The error of a specifier that is not found.
fn not_found(specifier: &str) -> (r: ResolveError)
    ensures
        r matches ResolveError::NotFound(s) && s@ == specifier@,
{
    ResolveError::NotFound(specifier.to_owned())
}

/// The resolution of the declaration file found at `path`: the path is its canonical form
/// `realpath`, the query and fragment are taken out of `ctx`, `package_json` is that of its
/// package, and the module type is the one that the extension of `path` tells.
pub fn dts_finalize(
    path: &str,
    realpath: String,
    package_json: Option<Arc<PackageJson>>,
    ctx: &mut ResolveContext,
) -> (r: Resolution)
    ensures
        r.spec_path() == realpath@,
        r.spec_query() == opt_string_view(old(ctx).query),
        r.spec_fragment() == opt_string_view(old(ctx).fragment),
        r.spec_package_json() == package_json,
        r.spec_module_type() == spec_dts_module_type(path@),
        *final(ctx) == (ResolveContext { query: None, fragment: None, ..*old(ctx) }),
{
    let query = ctx.query.take();
    let fragment = ctx.fragment.take();
    Resolution::new(realpath, query, fragment, package_json, dts_module_type(path))
}

} // verus!
