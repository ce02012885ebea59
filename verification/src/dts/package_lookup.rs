//! Looking a bare specifier up inside one `node_modules` directory for declaration files: the
//! package's `exports` first (which, when present, decide alone), then its `typesVersions` for a
//! subpath, then the subpath as a file or directory, then the package directory itself.
//!
//! The lookup decides and the resolver does the work: each step is an action that the resolver
//! performs and reports back as an event.
use vstd::prelude::*;

use crate::dts::directory::{opt_string_view, spec_version_paths};
use crate::dts::{
    dts_get_matching_version_paths, dts_version_path_candidates, spec_dts_version_path_candidates, strings_view,
    Extensions, DECLARATION_BITS, JAVASCRIPT_BITS, TYPESCRIPT_BITS,
};
use crate::error::ResolveError;
use crate::json::JsonValue;
use crate::package_json::{spec_field, PackageJson};
use crate::path::{spec_join, PathUtil};
use crate::text::{str_chars, sub_chars, chars_to_string};

verus! {

broadcast use vstd::string::group_string_axioms;

/// The subpath looked up in the package's `exports`: `.` for the package itself, else `.`
/// followed by the rest.
pub open spec fn exports_subpath(rest: Seq<char>) -> Seq<char> {
    seq!['.'] + rest
}

/// The rest of the specifier without its leading `/`, as `typesVersions` patterns see it.
pub open spec fn version_specifier(rest: Seq<char>) -> Seq<char> {
    if rest.len() > 0 && rest[0] == '/' {
        rest.skip(1)
    } else {
        rest
    }
}

pub open spec fn all_extensions() -> Extensions {
    Extensions(TYPESCRIPT_BITS | DECLARATION_BITS | JAVASCRIPT_BITS)
}

/// What the lookup does next.
pub enum PackageStep {
    IsDir(Seq<char>),
    IsFile(Seq<char>),
    ReadPackageJson(Seq<char>),
    /// Resolve the subpath through the package's `exports` fields.
    ResolveExports(Seq<char>, Seq<char>),
    ResolveAsFile(Seq<char>, Extensions),
    ResolveAsDirectory(Seq<char>, Extensions),
    Done(Result<Option<Seq<char>>, ResolveError>),
}

pub enum PackageStage {
    CheckPackageDir,
    ReadPackageJson,
    Exports,
    /// Whether the path that `exports` gave is a file.
    ExportIsFile,
    /// The path that `exports` gave, as a file with an extension.
    ExportAsFile,
    VersionFile(int),
    VersionDir(int),
    VersionNested(int),
    /// The subpath inside `node_modules`, as a file.
    RestFile,
    RestDir,
    RestNested,
    /// The package directory, as a directory.
    PackageDir,
    Finished,
}

/// The mathematical state of the lookup.
pub struct PackageLookupView {
    pub modules_dir: Seq<char>,
    pub specifier: Seq<char>,
    pub rest: Seq<char>,
    pub extensions: Extensions,
    pub package_dir: Seq<char>,
    pub version_candidates: Seq<Seq<char>>,
    /// What the package's `exports` resolved the subpath to.
    pub exported: Option<Seq<char>>,
    pub stage: PackageStage,
}

pub enum PackageEventView {
    Dir(bool),
    IsFile(bool),
    PackageJson(Result<Option<JsonValue>, ResolveError>),
    Exported(Option<Seq<char>>),
    File(Option<Seq<char>>),
    Directory(Result<Option<Seq<char>>, ResolveError>),
}

pub open spec fn rest_candidate(v: PackageLookupView) -> Seq<char> {
    spec_join(v.modules_dir, v.specifier)
}

pub open spec fn stage_step(v: PackageLookupView) -> PackageStep {
    match v.stage {
        PackageStage::CheckPackageDir => PackageStep::IsDir(v.package_dir),
        PackageStage::ReadPackageJson => PackageStep::ReadPackageJson(v.package_dir),
        PackageStage::Exports => PackageStep::ResolveExports(v.package_dir, exports_subpath(v.rest)),
        PackageStage::ExportIsFile => PackageStep::IsFile(v.exported->Some_0),
        PackageStage::ExportAsFile => PackageStep::ResolveAsFile(v.exported->Some_0, all_extensions()),
        PackageStage::VersionFile(i) => PackageStep::ResolveAsFile(v.version_candidates[i], v.extensions),
        PackageStage::VersionDir(i) => PackageStep::IsDir(v.version_candidates[i]),
        PackageStage::VersionNested(i) => PackageStep::ResolveAsDirectory(v.version_candidates[i], v.extensions),
        PackageStage::RestFile => PackageStep::ResolveAsFile(rest_candidate(v), v.extensions),
        PackageStage::RestDir => PackageStep::IsDir(rest_candidate(v)),
        PackageStage::RestNested => PackageStep::ResolveAsDirectory(rest_candidate(v), v.extensions),
        PackageStage::PackageDir => PackageStep::ResolveAsDirectory(v.package_dir, v.extensions),
        PackageStage::Finished => PackageStep::Done(Ok(None)),
    }
}

/// The stage for the `typesVersions` candidate at `i`; past the last one, the subpath when
/// there is one, else the package directory.
pub open spec fn versions_from(v: PackageLookupView, i: int) -> PackageStage {
    if 0 <= i < v.version_candidates.len() {
        PackageStage::VersionFile(i)
    } else if v.rest.len() > 0 {
        PackageStage::RestFile
    } else {
        PackageStage::PackageDir
    }
}

pub open spec fn moved(v: PackageLookupView, stage: PackageStage) -> (PackageLookupView, PackageStep) {
    let n = PackageLookupView { stage, ..v };
    (n, stage_step(n))
}

pub open spec fn finished(v: PackageLookupView, r: Result<Option<Seq<char>>, ResolveError>) -> (
    PackageLookupView,
    PackageStep,
) {
    (PackageLookupView { stage: PackageStage::Finished, ..v }, PackageStep::Done(r))
}

/// The `typesVersions` candidates of the package for a subpath.
pub open spec fn package_version_candidates(v: PackageLookupView, root: Option<JsonValue>) -> Seq<Seq<char>> {
    match root {
        Some(r) => if v.rest.len() > 0 {
            match spec_version_paths(r) {
                Some(vp) => spec_dts_version_path_candidates(vp, version_specifier(v.rest), v.package_dir),
                None => Seq::empty(),
            }
        } else {
            Seq::empty()
        },
        None => Seq::empty(),
    }
}

pub open spec fn expects(v: PackageLookupView, e: PackageEventView) -> bool {
    match v.stage {
        PackageStage::CheckPackageDir | PackageStage::VersionDir(_) | PackageStage::RestDir => e is Dir,
        PackageStage::ExportIsFile => e is IsFile,
        PackageStage::ReadPackageJson => e is PackageJson,
        PackageStage::Exports => e is Exported,
        PackageStage::ExportAsFile | PackageStage::VersionFile(_) | PackageStage::RestFile => e is File,
        PackageStage::VersionNested(_) | PackageStage::RestNested | PackageStage::PackageDir => e is Directory,
        PackageStage::Finished => false,
    }
}

/// The next state and step after the event `e`: a missing package directory ends the lookup
/// with nothing, and an error reading `package.json` with that error. A package with `exports`
/// is decided by them alone: nothing when they give nothing, else the path they give (that
/// path with an extension when it is not a file itself and such a file exists). Otherwise the
/// `typesVersions` candidates of a subpath are tried (each as a file, then, when it is a
/// directory, as a directory), then the subpath as a file and, when it is a directory, as a
/// directory, and last the package directory, whose outcome is the lookup's.
pub open spec fn package_transition(v: PackageLookupView, e: PackageEventView) -> (PackageLookupView, PackageStep) {
    match (v.stage, e) {
        (PackageStage::CheckPackageDir, PackageEventView::Dir(is_dir)) => if is_dir {
            moved(v, PackageStage::ReadPackageJson)
        } else {
            finished(v, Ok(None))
        },
        (PackageStage::ReadPackageJson, PackageEventView::PackageJson(r)) => match r {
            Err(err) => finished(v, Err(err)),
            Ok(root) => if root matches Some(doc) && spec_field(doc, "exports"@) is Some {
                moved(v, PackageStage::Exports)
            } else {
                let w = PackageLookupView { version_candidates: package_version_candidates(v, root), ..v };
                moved(w, versions_from(w, 0))
            },
        },
        (PackageStage::Exports, PackageEventView::Exported(o)) => match o {
            Some(p) => moved(PackageLookupView { exported: Some(p), ..v }, PackageStage::ExportIsFile),
            None => finished(v, Ok(None)),
        },
        (PackageStage::ExportIsFile, PackageEventView::IsFile(is_file)) => if is_file {
            finished(v, Ok(v.exported))
        } else {
            moved(v, PackageStage::ExportAsFile)
        },
        (PackageStage::ExportAsFile, PackageEventView::File(f)) => match f {
            Some(p) => finished(v, Ok(Some(p))),
            None => finished(v, Ok(v.exported)),
        },
        (PackageStage::VersionFile(i), PackageEventView::File(f)) => match f {
            Some(p) => finished(v, Ok(Some(p))),
            None => moved(v, PackageStage::VersionDir(i)),
        },
        (PackageStage::VersionDir(i), PackageEventView::Dir(is_dir)) => if is_dir {
            moved(v, PackageStage::VersionNested(i))
        } else {
            moved(v, versions_from(v, i + 1))
        },
        (PackageStage::VersionNested(i), PackageEventView::Directory(r)) => match r {
            Ok(None) => moved(v, versions_from(v, i + 1)),
            other => finished(v, other),
        },
        (PackageStage::RestFile, PackageEventView::File(f)) => match f {
            Some(p) => finished(v, Ok(Some(p))),
            None => moved(v, PackageStage::RestDir),
        },
        (PackageStage::RestDir, PackageEventView::Dir(is_dir)) => if is_dir {
            moved(v, PackageStage::RestNested)
        } else {
            moved(v, PackageStage::PackageDir)
        },
        (PackageStage::RestNested, PackageEventView::Directory(r)) => finished(v, r),
        (PackageStage::PackageDir, PackageEventView::Directory(r)) => finished(v, r),
        _ => (v, stage_step(v)),
    }
}

/// The lookup of `specifier` (package name `package_name`, rest `rest`) in `modules_dir`, at
/// its start.
pub open spec fn package_start(
    modules_dir: Seq<char>,
    specifier: Seq<char>,
    package_name: Seq<char>,
    rest: Seq<char>,
    extensions: Extensions,
) -> PackageLookupView {
    PackageLookupView {
        modules_dir,
        specifier,
        rest,
        extensions,
        package_dir: spec_join(modules_dir, package_name),
        version_candidates: Seq::empty(),
        exported: None,
        stage: PackageStage::CheckPackageDir,
    }
}

/// The stages in which the package's `exports` decide.
pub open spec fn deciding_by_exports(s: PackageStage) -> bool {
    s is Exports || s is ExportIsFile || s is ExportAsFile
}

/// The event is the reading of a `package.json` that has `exports`.
pub open spec fn reads_exports(v: PackageLookupView, e: PackageEventView) -> bool {
    v.stage is ReadPackageJson && match e {
        PackageEventView::PackageJson(Ok(Some(doc))) => spec_field(doc, "exports"@) is Some,
        _ => false,
    }
}

/// A package with `exports` is decided by them alone: reading such a `package.json` leads to
/// its `exports`, and from there the lookup only checks the path they give and ends; its
/// `types`, `typings`, `main`, `typesVersions` and files are never looked at.
pub proof fn law_exports_decide_alone(v: PackageLookupView, e: PackageEventView)
    requires
        expects(v, e),
        deciding_by_exports(v.stage) || reads_exports(v, e),
    ensures
        deciding_by_exports(package_transition(v, e).0.stage) || package_transition(v, e).0.stage is Finished,
{
}

/// What the resolver must do next for a package lookup.
#[derive(Debug)]
pub enum PackageAction {
    /// Report whether this path is a directory.
    IsDir(String),
    /// Report whether this path is a file.
    IsFile(String),
    /// Report the `package.json` of this directory.
    ReadPackageJson(String),
    /// Resolve `subpath` through the `exports` fields of the package in `dir`, in order, and
    /// report the first path found (a field that fails counts as finding nothing).
    ResolveExports { dir: String, subpath: String },
    /// Look this path up as a file with these extensions and report the file found.
    ResolveAsFile(String, Extensions),
    /// Look this path up as a directory with these extensions and report the outcome.
    ResolveAsDirectory(String, Extensions),
    /// The lookup is over with this outcome.
    Done(Result<Option<String>, ResolveError>),
}

/// What the resolver reports back to a package lookup.
pub enum PackageEvent {
    Dir(bool),
    IsFile(bool),
    PackageJson(Result<Option<PackageJson>, ResolveError>),
    Exported(Option<String>),
    File(Option<String>),
    Directory(Result<Option<String>, ResolveError>),
}

pub open spec fn result_view(r: Result<Option<String>, ResolveError>) -> Result<Option<Seq<char>>, ResolveError> {
    match r {
        Ok(o) => Ok(opt_string_view(o)),
        Err(e) => Err(e),
    }
}

pub open spec fn event_view(e: PackageEvent) -> PackageEventView {
    match e {
        PackageEvent::Dir(b) => PackageEventView::Dir(b),
        PackageEvent::IsFile(b) => PackageEventView::IsFile(b),
        PackageEvent::PackageJson(Ok(Some(p))) => PackageEventView::PackageJson(Ok(Some(p.root))),
        PackageEvent::PackageJson(Ok(None)) => PackageEventView::PackageJson(Ok(None)),
        PackageEvent::PackageJson(Err(err)) => PackageEventView::PackageJson(Err(err)),
        PackageEvent::Exported(o) => PackageEventView::Exported(opt_string_view(o)),
        PackageEvent::File(f) => PackageEventView::File(opt_string_view(f)),
        PackageEvent::Directory(r) => PackageEventView::Directory(result_view(r)),
    }
}

pub open spec fn action_view(a: PackageAction) -> PackageStep {
    match a {
        PackageAction::IsDir(p) => PackageStep::IsDir(p@),
        PackageAction::IsFile(p) => PackageStep::IsFile(p@),
        PackageAction::ReadPackageJson(p) => PackageStep::ReadPackageJson(p@),
        PackageAction::ResolveExports { dir, subpath } => PackageStep::ResolveExports(dir@, subpath@),
        PackageAction::ResolveAsFile(p, x) => PackageStep::ResolveAsFile(p@, x),
        PackageAction::ResolveAsDirectory(p, x) => PackageStep::ResolveAsDirectory(p@, x),
        PackageAction::Done(r) => PackageStep::Done(result_view(r)),
    }
}

enum Stage {
    CheckPackageDir,
    ReadPackageJson,
    Exports,
    ExportIsFile,
    ExportAsFile,
    VersionFile(usize),
    VersionDir(usize),
    VersionNested(usize),
    RestFile,
    RestDir,
    RestNested,
    PackageDir,
    Finished,
}

/// The lookup of one specifier inside one `node_modules` directory.
pub struct DtsPackageLookup {
    modules_dir: String,
    specifier: String,
    rest: String,
    extensions: Extensions,
    package_dir: String,
    version_candidates: Vec<String>,
    exported: Option<String>,
    stage: Stage,
}

impl View for DtsPackageLookup {
    type V = PackageLookupView;

    closed spec fn view(&self) -> PackageLookupView {
        PackageLookupView {
            modules_dir: self.modules_dir@,
            specifier: self.specifier@,
            rest: self.rest@,
            extensions: self.extensions,
            package_dir: self.package_dir@,
            version_candidates: strings_view(self.version_candidates@),
            exported: opt_string_view(self.exported),
            stage: match self.stage {
                Stage::CheckPackageDir => PackageStage::CheckPackageDir,
                Stage::ReadPackageJson => PackageStage::ReadPackageJson,
                Stage::Exports => PackageStage::Exports,
                Stage::ExportIsFile => PackageStage::ExportIsFile,
                Stage::ExportAsFile => PackageStage::ExportAsFile,
                Stage::VersionFile(i) => PackageStage::VersionFile(i as int),
                Stage::VersionDir(i) => PackageStage::VersionDir(i as int),
                Stage::VersionNested(i) => PackageStage::VersionNested(i as int),
                Stage::RestFile => PackageStage::RestFile,
                Stage::RestDir => PackageStage::RestDir,
                Stage::RestNested => PackageStage::RestNested,
                Stage::PackageDir => PackageStage::PackageDir,
                Stage::Finished => PackageStage::Finished,
            },
        }
    }
}

impl DtsPackageLookup {
    /// The stage points at a candidate that exists, and at the exported path once there is
    /// one.
    pub closed spec fn wf(&self) -> bool {
        match self.stage {
            Stage::VersionFile(i) | Stage::VersionDir(i) | Stage::VersionNested(i) => i < self.version_candidates@.len(),
            Stage::ExportIsFile | Stage::ExportAsFile => self.exported is Some,
            _ => true,
        }
    }

    /// Start looking up `specifier` (package name `package_name`, rest `rest`) inside the
    /// `node_modules` directory `modules_dir`.
    pub fn start(modules_dir: &str, specifier: &str, package_name: &str, rest: &str, extensions: Extensions) -> (r: (
        DtsPackageLookup,
        PackageAction,
    ))
        ensures
            r.0.wf(),
            r.0@ == package_start(modules_dir@, specifier@, package_name@, rest@, extensions),
            action_view(r.1) == stage_step(r.0@),
    {
        let package_dir = modules_dir.normalize_with(package_name);
        let lookup = DtsPackageLookup {
            modules_dir: modules_dir.to_owned(),
            specifier: specifier.to_owned(),
            rest: rest.to_owned(),
            extensions,
            package_dir: package_dir.clone(),
            version_candidates: Vec::new(),
            exported: None,
            stage: Stage::CheckPackageDir,
        };
        proof {
            assert(strings_view(lookup.version_candidates@) =~= Seq::<Seq<char>>::empty());
        }
        (lookup, PackageAction::IsDir(package_dir))
    }

    fn current_action(&self) -> (r: PackageAction)
        requires
            self.wf(),
        ensures
            action_view(r) == stage_step(self@),
    {
        match self.stage {
            Stage::CheckPackageDir => PackageAction::IsDir(self.package_dir.clone()),
            Stage::ReadPackageJson => PackageAction::ReadPackageJson(self.package_dir.clone()),
            Stage::Exports => {
                let dot = String::from_str(".");
                proof {
                    reveal_strlit(".");
                    assert(dot@ =~= seq!['.']);
                }
                PackageAction::ResolveExports { dir: self.package_dir.clone(), subpath: dot.concat(self.rest.as_str()) }
            },
            Stage::ExportIsFile => PackageAction::IsFile(self.exported.as_ref().unwrap().clone()),
            Stage::ExportAsFile => PackageAction::ResolveAsFile(
                self.exported.as_ref().unwrap().clone(),
                Extensions::typescript().union(Extensions::declaration()).union(Extensions::javascript()),
            ),
            Stage::VersionFile(i) => PackageAction::ResolveAsFile(self.version_candidates[i].clone(), self.extensions),
            Stage::VersionDir(i) => PackageAction::IsDir(self.version_candidates[i].clone()),
            Stage::VersionNested(i) => PackageAction::ResolveAsDirectory(
                self.version_candidates[i].clone(),
                self.extensions,
            ),
            Stage::RestFile => PackageAction::ResolveAsFile(
                self.modules_dir.as_str().normalize_with(self.specifier.as_str()),
                self.extensions,
            ),
            Stage::RestDir => PackageAction::IsDir(self.modules_dir.as_str().normalize_with(self.specifier.as_str())),
            Stage::RestNested => PackageAction::ResolveAsDirectory(
                self.modules_dir.as_str().normalize_with(self.specifier.as_str()),
                self.extensions,
            ),
            Stage::PackageDir => PackageAction::ResolveAsDirectory(self.package_dir.clone(), self.extensions),
            Stage::Finished => PackageAction::Done(Ok(None)),
        }
    }

    fn go_to_versions(&mut self, i: usize)
        requires
            old(self).wf(),
        ensures
            final(self).wf(),
            final(self)@ == (PackageLookupView { stage: versions_from(old(self)@, i as int), ..old(self)@ }),
    {
        if i < self.version_candidates.len() {
            self.stage = Stage::VersionFile(i);
        } else if !self.rest.as_str().is_empty() {
            self.stage = Stage::RestFile;
        } else {
            self.stage = Stage::PackageDir;
        }
    }

    fn finish(&mut self, r: Result<Option<String>, ResolveError>) -> (a: PackageAction)
        ensures
            final(self).wf(),
            (final(self)@, action_view(a)) == finished(old(self)@, result_view(r)),
    {
        self.stage = Stage::Finished;
        PackageAction::Done(r)
    }

    /// Take the resolver's report on the last action and move on (see
    /// [`package_transition`]).
    pub fn on_event(&mut self, event: PackageEvent) -> (r: PackageAction)
        requires
            old(self).wf(),
            expects(old(self)@, event_view(event)),
        ensures
            final(self).wf(),
            (final(self)@, action_view(r)) == package_transition(old(self)@, event_view(event)),
    {
        match event {
            PackageEvent::Dir(is_dir) => self.on_dir(is_dir),
            PackageEvent::IsFile(is_file) => {
                if is_file {
                    let exported = self.exported.clone();
                    self.finish(Ok(exported))
                } else {
                    self.stage = Stage::ExportAsFile;
                    self.current_action()
                }
            },
            PackageEvent::PackageJson(r) => self.on_package_json(r),
            PackageEvent::Exported(o) => match o {
                Some(p) => {
                    self.exported = Some(p);
                    self.stage = Stage::ExportIsFile;
                    self.current_action()
                },
                None => self.finish(Ok(None)),
            },
            PackageEvent::File(f) => self.on_file(f),
            PackageEvent::Directory(r) => self.on_directory(r),
        }
    }

    fn on_dir(&mut self, is_dir: bool) -> (r: PackageAction)
        requires
            old(self).wf(),
            expects(old(self)@, PackageEventView::Dir(is_dir)),
        ensures
            final(self).wf(),
            (final(self)@, action_view(r)) == package_transition(old(self)@, PackageEventView::Dir(is_dir)),
    {
        match self.stage {
            Stage::CheckPackageDir => {
                if !is_dir {
                    return self.finish(Ok(None));
                }
                self.stage = Stage::ReadPackageJson;
            },
            Stage::VersionDir(i) => {
                if is_dir {
                    self.stage = Stage::VersionNested(i);
                } else {
                    let count = self.version_candidates.len();
                    proof {
                        assert(i < count);
                    }
                    self.go_to_versions(i + 1);
                }
            },
            _ => {
                if is_dir {
                    self.stage = Stage::RestNested;
                } else {
                    self.stage = Stage::PackageDir;
                }
            },
        }
        self.current_action()
    }

    fn on_file(&mut self, f: Option<String>) -> (r: PackageAction)
        requires
            old(self).wf(),
            expects(old(self)@, PackageEventView::File(opt_string_view(f))),
        ensures
            final(self).wf(),
            (final(self)@, action_view(r)) == package_transition(old(self)@, PackageEventView::File(opt_string_view(f))),
    {
        if let Some(p) = f {
            return self.finish(Ok(Some(p)));
        }
        match self.stage {
            Stage::ExportAsFile => {
                let exported = self.exported.clone();
                self.finish(Ok(exported))
            },
            Stage::VersionFile(i) => {
                self.stage = Stage::VersionDir(i);
                self.current_action()
            },
            _ => {
                self.stage = Stage::RestDir;
                self.current_action()
            },
        }
    }

    fn on_directory(&mut self, r: Result<Option<String>, ResolveError>) -> (a: PackageAction)
        requires
            old(self).wf(),
            expects(old(self)@, PackageEventView::Directory(result_view(r))),
        ensures
            final(self).wf(),
            (final(self)@, action_view(a)) == package_transition(old(self)@, PackageEventView::Directory(result_view(r))),
    {
        match self.stage {
            Stage::VersionNested(i) => match r {
                Ok(None) => {
                    let count = self.version_candidates.len();
                    proof {
                        assert(i < count);
                    }
                    self.go_to_versions(i + 1);
                    self.current_action()
                },
                other => self.finish(other),
            },
            _ => self.finish(r),
        }
    }

    fn on_package_json(&mut self, r: Result<Option<PackageJson>, ResolveError>) -> (a: PackageAction)
        requires
            old(self).wf(),
            expects(old(self)@, event_view(PackageEvent::PackageJson(r))),
        ensures
            final(self).wf(),
            (final(self)@, action_view(a)) == package_transition(old(self)@, event_view(PackageEvent::PackageJson(r))),
    {
        let pkg = match r {
            Ok(p) => p,
            Err(err) => {
                return self.finish(Err(err));
            },
        };
        let mut candidates: Vec<String> = Vec::new();
        if let Some(pkg) = &pkg {
            if pkg.exports().is_some() {
                self.stage = Stage::Exports;
                return self.current_action();
            }
            if !self.rest.as_str().is_empty() {
                if let Some(vp) = dts_get_matching_version_paths(pkg) {
                    let rest_chars = str_chars(self.rest.as_str());
                    let specifier = if rest_chars.len() > 0 && rest_chars[0] == '/' {
                        chars_to_string(sub_chars(rest_chars.as_slice(), 1, rest_chars.len()).as_slice())
                    } else {
                        self.rest.clone()
                    };
                    proof {
                        if rest_chars@.len() > 0 && rest_chars@[0] == '/' {
                            assert(rest_chars@.subrange(1, rest_chars@.len() as int) =~= self.rest@.skip(1));
                        }
                    }
                    candidates = dts_version_path_candidates(&vp, specifier.as_str(), self.package_dir.as_str());
                }
            }
        }
        proof {
            let root = match pkg {
                Some(p) => Some(p.root),
                None => None,
            };
            if candidates@.len() == 0 {
                assert(strings_view(candidates@) =~= Seq::<Seq<char>>::empty());
            }
            assert(strings_view(candidates@) == package_version_candidates(old(self)@, root));
        }
        self.version_candidates = candidates;
        self.go_to_versions(0);
        self.current_action()
    }
}

} // verus!
