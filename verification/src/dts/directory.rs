//! Resolving a directory for declaration files, as TypeScript's
//! `loadNodeModuleFromDirectoryWorker` does it: the `typesVersions` paths of the directory's
//! `package.json` first, then its entry (`typings`, `types` or `main`), then `index`.
//!
//! The lookup decides and the resolver does the work: each step is an action that the resolver
//! performs (a directory check, reading `package.json`, a file lookup, or the lookup of a nested
//! directory) and reports back as an event.
use vstd::prelude::*;

use crate::dts::{
    dts_get_matching_version_paths, dts_package_entry, dts_version_path_candidates,
    dts_version_paths_specifier, spec_dts_package_entry, spec_dts_version_path_candidates,
    spec_first_version_paths, strings_view, version_paths_view, Extensions,
};
use crate::error::ResolveError;
use crate::json::JsonValue;
use crate::package_json::{spec_field, PackageJson};
use crate::path::{push_path, spec_join, spec_push, PathUtil};

verus! {

broadcast use vstd::string::group_string_axioms;

/// The usable `typesVersions` paths of a `package.json` document.
pub open spec fn spec_version_paths(root: JsonValue) -> Option<Seq<(Seq<char>, Seq<Seq<char>>)>> {
    match spec_field(root, "typesVersions"@) {
        Some(JsonValue::Object(o)) => spec_first_version_paths(o.entries@),
        _ => None,
    }
}

/// The specifier looked up through `typesVersions`: the package entry, or `index`.
pub open spec fn spec_version_specifier(root: JsonValue, extensions: Extensions) -> Seq<char> {
    match spec_dts_package_entry(root, extensions) {
        Some(e) => e,
        None => "index"@,
    }
}

/// `index` inside `dir`.
pub open spec fn index_in(dir: Seq<char>) -> Seq<char> {
    spec_push(dir, "index"@)
}

/// What a directory lookup does next.
pub enum DirStep {
    /// Ask whether this path is a directory.
    IsDir(Seq<char>),
    /// Read the `package.json` of this directory.
    ReadPackageJson(Seq<char>),
    /// Look this path up as a file.
    ResolveAsFile(Seq<char>),
    /// Look this path up as a directory.
    ResolveAsDirectory(Seq<char>),
    /// The lookup is over.
    Done(Result<Option<Seq<char>>, ResolveError>),
}

/// Where a directory lookup stands.
pub enum DirStage {
    CheckDir,
    ReadPackageJson,
    /// The `typesVersions` candidate at this position, as a file.
    VersionFile(int),
    /// Whether that candidate is a directory.
    VersionDir(int),
    /// That candidate, as a directory.
    VersionNested(int),
    /// The package entry, as a file.
    EntryFile,
    /// Whether the package entry is a directory.
    EntryDir,
    /// `index` inside the package entry, as a file.
    EntryIndex,
    /// `index` inside the directory, as a file.
    Index,
    Finished,
}

/// The mathematical state of a directory lookup.
pub struct DirLookupView {
    pub candidate: Seq<char>,
    pub extensions: Extensions,
    /// The `typesVersions` candidates, in the order they are tried.
    pub version_candidates: Seq<Seq<char>>,
    /// The package entry joined onto the directory.
    pub entry: Option<Seq<char>>,
    pub stage: DirStage,
}

/// What the resolver reports back.
pub enum DirEventView {
    Dir(bool),
    PackageJson(Result<Option<JsonValue>, ResolveError>),
    File(Option<Seq<char>>),
    Directory(Result<Option<Seq<char>>, ResolveError>),
}

/// The step that the lookup takes at a stage other than `Finished`.
pub open spec fn stage_step(v: DirLookupView) -> DirStep {
    match v.stage {
        DirStage::CheckDir => DirStep::IsDir(v.candidate),
        DirStage::ReadPackageJson => DirStep::ReadPackageJson(v.candidate),
        DirStage::VersionFile(i) => DirStep::ResolveAsFile(v.version_candidates[i]),
        DirStage::VersionDir(i) => DirStep::IsDir(v.version_candidates[i]),
        DirStage::VersionNested(i) => DirStep::ResolveAsDirectory(v.version_candidates[i]),
        DirStage::EntryFile => DirStep::ResolveAsFile(v.entry->Some_0),
        DirStage::EntryDir => DirStep::IsDir(v.entry->Some_0),
        DirStage::EntryIndex => DirStep::ResolveAsFile(index_in(v.entry->Some_0)),
        DirStage::Index => DirStep::ResolveAsFile(index_in(v.candidate)),
        DirStage::Finished => DirStep::Done(Ok(None)),
    }
}

/// The stage for the `typesVersions` candidate at `i`: past the last one, the package entry
/// when there is one, else `index`.
pub open spec fn versions_from(v: DirLookupView, i: int) -> DirStage {
    if 0 <= i < v.version_candidates.len() {
        DirStage::VersionFile(i)
    } else if v.entry is Some {
        DirStage::EntryFile
    } else {
        DirStage::Index
    }
}

pub open spec fn moved(v: DirLookupView, stage: DirStage) -> (DirLookupView, DirStep) {
    let n = DirLookupView { stage, ..v };
    (n, stage_step(n))
}

pub open spec fn finished(v: DirLookupView, r: Result<Option<Seq<char>>, ResolveError>) -> (DirLookupView, DirStep) {
    (DirLookupView { stage: DirStage::Finished, ..v }, DirStep::Done(r))
}

/// The lookup with what the directory's `package.json` (if any) says: its `typesVersions`
/// candidates and its entry.
pub open spec fn with_package(v: DirLookupView, root: Option<JsonValue>) -> DirLookupView {
    match root {
        Some(r) => DirLookupView {
            version_candidates: match spec_version_paths(r) {
                Some(vp) => spec_dts_version_path_candidates(
                    vp,
                    spec_version_specifier(r, v.extensions),
                    v.candidate,
                ),
                None => Seq::empty(),
            },
            entry: match spec_dts_package_entry(r, v.extensions) {
                Some(e) => Some(spec_join(v.candidate, e)),
                None => None,
            },
            ..v
        },
        None => DirLookupView { version_candidates: Seq::empty(), entry: None, ..v },
    }
}

/// Whether the lookup waits for an event of the kind of `e`.
pub open spec fn expects(v: DirLookupView, e: DirEventView) -> bool {
    match v.stage {
        DirStage::CheckDir | DirStage::VersionDir(_) | DirStage::EntryDir => e is Dir,
        DirStage::ReadPackageJson => e is PackageJson,
        DirStage::VersionFile(_) | DirStage::EntryFile | DirStage::EntryIndex | DirStage::Index => e is File,
        DirStage::VersionNested(_) => e is Directory,
        DirStage::Finished => false,
    }
}

/// The next state and step of the lookup after the event `e`: a directory that is not one ends
/// the lookup with nothing; an error reading `package.json` or from a nested lookup ends it with
/// that error; a file found ends it with that file; otherwise the lookup moves on through the
/// `typesVersions` candidates (each as a file, then, when it is a directory, as a directory),
/// the entry (as a file, then its `index` when it is a directory) and the directory's `index`,
/// whose outcome is the lookup's.
pub open spec fn dir_transition(v: DirLookupView, e: DirEventView) -> (DirLookupView, DirStep) {
    match (v.stage, e) {
        (DirStage::CheckDir, DirEventView::Dir(is_dir)) => if is_dir {
            moved(v, DirStage::ReadPackageJson)
        } else {
            finished(v, Ok(None))
        },
        (DirStage::ReadPackageJson, DirEventView::PackageJson(r)) => match r {
            Ok(root) => {
                let w = with_package(v, root);
                moved(w, versions_from(w, 0))
            },
            Err(err) => finished(v, Err(err)),
        },
        (DirStage::VersionFile(i), DirEventView::File(f)) => match f {
            Some(p) => finished(v, Ok(Some(p))),
            None => moved(v, DirStage::VersionDir(i)),
        },
        (DirStage::VersionDir(i), DirEventView::Dir(is_dir)) => if is_dir {
            moved(v, DirStage::VersionNested(i))
        } else {
            moved(v, versions_from(v, i + 1))
        },
        (DirStage::VersionNested(i), DirEventView::Directory(r)) => match r {
            Ok(Some(p)) => finished(v, Ok(Some(p))),
            Ok(None) => moved(v, versions_from(v, i + 1)),
            Err(err) => finished(v, Err(err)),
        },
        (DirStage::EntryFile, DirEventView::File(f)) => match f {
            Some(p) => finished(v, Ok(Some(p))),
            None => moved(v, DirStage::EntryDir),
        },
        (DirStage::EntryDir, DirEventView::Dir(is_dir)) => if is_dir {
            moved(v, DirStage::EntryIndex)
        } else {
            moved(v, DirStage::Index)
        },
        (DirStage::EntryIndex, DirEventView::File(f)) => match f {
            Some(p) => finished(v, Ok(Some(p))),
            None => moved(v, DirStage::Index),
        },
        (DirStage::Index, DirEventView::File(f)) => finished(v, Ok(f)),
        _ => (v, stage_step(v)),
    }
}

/// The state in which the lookup of `candidate` starts.
pub open spec fn dir_start(candidate: Seq<char>, extensions: Extensions) -> DirLookupView {
    DirLookupView {
        candidate,
        extensions,
        version_candidates: Seq::empty(),
        entry: None,
        stage: DirStage::CheckDir,
    }
}

/// The phase of a stage: the directory check, `package.json`, the `typesVersions`
/// candidates, the entry, `index`, the end.
pub open spec fn phase(s: DirStage) -> int {
    match s {
        DirStage::CheckDir => 0,
        DirStage::ReadPackageJson => 1,
        DirStage::VersionFile(_) | DirStage::VersionDir(_) | DirStage::VersionNested(_) => 2,
        DirStage::EntryFile | DirStage::EntryDir | DirStage::EntryIndex => 3,
        DirStage::Index => 4,
        DirStage::Finished => 5,
    }
}

/// A directory lookup never goes back: the `typesVersions` candidates come before the entry,
/// and the entry before `index`.
pub proof fn law_directory_order(v: DirLookupView, e: DirEventView)
    requires
        expects(v, e),
    ensures
        phase(dir_transition(v, e).0.stage) >= phase(v.stage),
{
}

/// What the resolver must do next for a directory lookup.
#[derive(Debug)]
pub enum DirAction {
    /// Report whether this path is a directory.
    IsDir(String),
    /// Report the `package.json` of this directory.
    ReadPackageJson(String),
    /// Look this path up as a file (probing [`crate::dts::dts_file_candidates`]) and report
    /// the file found.
    ResolveAsFile(String),
    /// Look this path up as a directory (a nested lookup) and report its outcome.
    ResolveAsDirectory(String),
    /// The lookup is over with this outcome.
    Done(Result<Option<String>, ResolveError>),
}

/// What the resolver reports back to a directory lookup.
pub enum DirEvent {
    /// Whether the path of the last `IsDir` action is a directory.
    Dir(bool),
    /// The `package.json` of the directory, if it has one.
    PackageJson(Result<Option<PackageJson>, ResolveError>),
    /// The file that the last `ResolveAsFile` action found.
    File(Option<String>),
    /// The outcome of the last `ResolveAsDirectory` action.
    Directory(Result<Option<String>, ResolveError>),
}

pub open spec fn opt_string_view(o: Option<String>) -> Option<Seq<char>> {
    match o {
        Some(s) => Some(s@),
        None => None,
    }
}

pub open spec fn dir_result_view(r: Result<Option<String>, ResolveError>) -> Result<Option<Seq<char>>, ResolveError> {
    match r {
        Ok(o) => Ok(opt_string_view(o)),
        Err(e) => Err(e),
    }
}

pub open spec fn event_view(e: DirEvent) -> DirEventView {
    match e {
        DirEvent::Dir(b) => DirEventView::Dir(b),
        DirEvent::PackageJson(Ok(Some(p))) => DirEventView::PackageJson(Ok(Some(p.root))),
        DirEvent::PackageJson(Ok(None)) => DirEventView::PackageJson(Ok(None)),
        DirEvent::PackageJson(Err(err)) => DirEventView::PackageJson(Err(err)),
        DirEvent::File(f) => DirEventView::File(opt_string_view(f)),
        DirEvent::Directory(r) => DirEventView::Directory(dir_result_view(r)),
    }
}

pub open spec fn action_view(a: DirAction) -> DirStep {
    match a {
        DirAction::IsDir(p) => DirStep::IsDir(p@),
        DirAction::ReadPackageJson(p) => DirStep::ReadPackageJson(p@),
        DirAction::ResolveAsFile(p) => DirStep::ResolveAsFile(p@),
        DirAction::ResolveAsDirectory(p) => DirStep::ResolveAsDirectory(p@),
        DirAction::Done(r) => DirStep::Done(dir_result_view(r)),
    }
}

enum Stage {
    CheckDir,
    ReadPackageJson,
    VersionFile(usize),
    VersionDir(usize),
    VersionNested(usize),
    EntryFile,
    EntryDir,
    EntryIndex,
    Index,
    Finished,
}

/// The lookup of one directory for declaration files.
pub struct DtsDirectoryLookup {
    candidate: String,
    extensions: Extensions,
    version_candidates: Vec<String>,
    entry: Option<String>,
    stage: Stage,
}

impl View for DtsDirectoryLookup {
    type V = DirLookupView;

    closed spec fn view(&self) -> DirLookupView {
        DirLookupView {
            candidate: self.candidate@,
            extensions: self.extensions,
            version_candidates: strings_view(self.version_candidates@),
            entry: opt_string_view(self.entry),
            stage: match self.stage {
                Stage::CheckDir => DirStage::CheckDir,
                Stage::ReadPackageJson => DirStage::ReadPackageJson,
                Stage::VersionFile(i) => DirStage::VersionFile(i as int),
                Stage::VersionDir(i) => DirStage::VersionDir(i as int),
                Stage::VersionNested(i) => DirStage::VersionNested(i as int),
                Stage::EntryFile => DirStage::EntryFile,
                Stage::EntryDir => DirStage::EntryDir,
                Stage::EntryIndex => DirStage::EntryIndex,
                Stage::Index => DirStage::Index,
                Stage::Finished => DirStage::Finished,
            },
        }
    }
}

impl DtsDirectoryLookup {
    /// The stage points at a candidate that exists and at an entry when there is one.
    pub closed spec fn wf(&self) -> bool {
        &&& match self.stage {
            Stage::VersionFile(i) | Stage::VersionDir(i) | Stage::VersionNested(i) => i
                < self.version_candidates@.len(),
            Stage::EntryFile | Stage::EntryDir | Stage::EntryIndex => self.entry is Some,
            _ => true,
        }
    }

    /// Start looking up `candidate` as a directory, with the extensions `extensions`.
    pub fn start(candidate: &str, extensions: Extensions) -> (r: (DtsDirectoryLookup, DirAction))
        ensures
            r.0.wf(),
            r.0@ == dir_start(candidate@, extensions),
            action_view(r.1) == stage_step(r.0@),
    {
        let lookup = DtsDirectoryLookup {
            candidate: candidate.to_owned(),
            extensions,
            version_candidates: Vec::new(),
            entry: None,
            stage: Stage::CheckDir,
        };
        proof {
            assert(strings_view(lookup.version_candidates@) =~= Seq::<Seq<char>>::empty());
        }
        (lookup, DirAction::IsDir(candidate.to_owned()))
    }

    /// The step for the current stage.
    fn current_action(&self) -> (r: DirAction)
        requires
            self.wf(),
            !(self@.stage is Finished),
        ensures
            action_view(r) == stage_step(self@),
    {
        match self.stage {
            Stage::CheckDir => DirAction::IsDir(self.candidate.clone()),
            Stage::ReadPackageJson => DirAction::ReadPackageJson(self.candidate.clone()),
            Stage::VersionFile(i) => DirAction::ResolveAsFile(self.version_candidates[i].clone()),
            Stage::VersionDir(i) => DirAction::IsDir(self.version_candidates[i].clone()),
            Stage::VersionNested(i) => DirAction::ResolveAsDirectory(self.version_candidates[i].clone()),
            Stage::EntryFile => {
                let e = self.entry.as_ref().unwrap();
                DirAction::ResolveAsFile(e.clone())
            },
            Stage::EntryDir => {
                let e = self.entry.as_ref().unwrap();
                DirAction::IsDir(e.clone())
            },
            Stage::EntryIndex => {
                let e = self.entry.as_ref().unwrap();
                DirAction::ResolveAsFile(push_path(e.as_str(), "index"))
            },
            Stage::Index => DirAction::ResolveAsFile(push_path(self.candidate.as_str(), "index")),
            Stage::Finished => DirAction::Done(Ok(None)),
        }
    }

    /// Move to the `typesVersions` candidate at `i` (or past them).
    fn go_to_versions(&mut self, i: usize)
        requires
            old(self).wf(),
        ensures
            final(self).wf(),
            final(self)@ == (DirLookupView { stage: versions_from(old(self)@, i as int), ..old(self)@ }),
    {
        if i < self.version_candidates.len() {
            self.stage = Stage::VersionFile(i);
        } else if self.entry.is_some() {
            self.stage = Stage::EntryFile;
        } else {
            self.stage = Stage::Index;
        }
    }

    /// Take the resolver's report on the last action and move on (see [`dir_transition`]).
    pub fn on_event(&mut self, event: DirEvent) -> (r: DirAction)
        requires
            old(self).wf(),
            expects(old(self)@, event_view(event)),
        ensures
            final(self).wf(),
            (final(self)@, action_view(r)) == dir_transition(old(self)@, event_view(event)),
    {
        match event {
            DirEvent::Dir(is_dir) => self.on_dir(is_dir),
            DirEvent::PackageJson(r) => self.on_package_json(r),
            DirEvent::File(f) => self.on_file(f),
            DirEvent::Directory(r) => self.on_directory(r),
        }
    }

    fn finish(&mut self, r: Result<Option<String>, ResolveError>) -> (a: DirAction)
        ensures
            final(self).wf(),
            (final(self)@, action_view(a)) == finished(old(self)@, dir_result_view(r)),
    {
        self.stage = Stage::Finished;
        DirAction::Done(r)
    }

    fn on_dir(&mut self, is_dir: bool) -> (r: DirAction)
        requires
            old(self).wf(),
            expects(old(self)@, DirEventView::Dir(is_dir)),
        ensures
            final(self).wf(),
            (final(self)@, action_view(r)) == dir_transition(old(self)@, DirEventView::Dir(is_dir)),
    {
        match self.stage {
            Stage::CheckDir => {
                if !is_dir {
                    return self.finish(Ok(None));
                }
                self.stage = Stage::ReadPackageJson;
            },
            Stage::VersionDir(i) => {
                if is_dir {
                    self.stage = Stage::VersionNested(i);
                } else {
                    let count = self.version_candidates.len();
                    proof {
                        assert(i < count);
                    }
                    self.go_to_versions(i + 1);
                }
            },
            _ => {
                if is_dir {
                    self.stage = Stage::EntryIndex;
                } else {
                    self.stage = Stage::Index;
                }
            },
        }
        self.current_action()
    }

    fn on_file(&mut self, f: Option<String>) -> (r: DirAction)
        requires
            old(self).wf(),
            expects(old(self)@, DirEventView::File(opt_string_view(f))),
        ensures
            final(self).wf(),
            (final(self)@, action_view(r)) == dir_transition(old(self)@, DirEventView::File(opt_string_view(f))),
    {
        if let Stage::Index = self.stage {
            return self.finish(Ok(f));
        }
        if let Some(p) = f {
            return self.finish(Ok(Some(p)));
        }
        match self.stage {
            Stage::VersionFile(i) => {
                self.stage = Stage::VersionDir(i);
            },
            Stage::EntryFile => {
                self.stage = Stage::EntryDir;
            },
            _ => {
                self.stage = Stage::Index;
            },
        }
        self.current_action()
    }

    fn on_directory(&mut self, r: Result<Option<String>, ResolveError>) -> (a: DirAction)
        requires
            old(self).wf(),
            expects(old(self)@, DirEventView::Directory(dir_result_view(r))),
        ensures
            final(self).wf(),
            (final(self)@, action_view(a)) == dir_transition(old(self)@, DirEventView::Directory(dir_result_view(r))),
    {
        let i = match self.stage {
            Stage::VersionNested(i) => i,
            _ => 0,
        };
        match r {
            Ok(Some(p)) => self.finish(Ok(Some(p))),
            Ok(None) => {
                let count = self.version_candidates.len();
                proof {
                    assert(i < count);
                }
                self.go_to_versions(i + 1);
                self.current_action()
            },
            Err(err) => self.finish(Err(err)),
        }
    }

    fn on_package_json(&mut self, r: Result<Option<PackageJson>, ResolveError>) -> (a: DirAction)
        requires
            old(self).wf(),
            expects(old(self)@, event_view(DirEvent::PackageJson(r))),
        ensures
            final(self).wf(),
            (final(self)@, action_view(a)) == dir_transition(old(self)@, event_view(DirEvent::PackageJson(r))),
    {
        let pkg = match r {
            Ok(p) => p,
            Err(err) => {
                return self.finish(Err(err));
            },
        };
        match &pkg {
            Some(pkg) => {
                let candidates = match dts_get_matching_version_paths(pkg) {
                    Some(vp) => {
                        let specifier = dts_version_paths_specifier(pkg, self.extensions);
                        proof {
                            reveal_strlit("index");
                        }
                        dts_version_path_candidates(&vp, specifier, self.candidate.as_str())
                    },
                    None => Vec::new(),
                };
                self.entry = match dts_package_entry(pkg, self.extensions) {
                    Some(e) => Some(self.candidate.as_str().normalize_with(e)),
                    None => None,
                };
                self.version_candidates = candidates;
            },
            None => {
                self.entry = None;
                self.version_candidates = Vec::new();
            },
        }
        proof {
            let w = with_package(old(self)@, match pkg {
                Some(p) => Some(p.root),
                None => None,
            });
            assert(self.version_candidates@.len() == 0 ==> strings_view(self.version_candidates@) =~= Seq::<
                Seq<char>,
            >::empty());
            assert(self@.version_candidates == w.version_candidates);
            assert(self@.entry == w.entry);
        }
        self.go_to_versions(0);
        self.current_action()
    }
}

} // verus!
