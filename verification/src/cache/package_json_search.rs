//! Finding the `package.json` that governs a path: from the nearest directory at or above the
//! path, each directory's `package.json` is read in turn, up to the root; the first that can
//! be read is parsed (with its canonical location when links are followed) and is the answer.
//!
//! The search decides and the caller does the work: each step is an action (a directory
//! check, reading a file, canonicalizing a directory, parsing a document) that the caller
//! performs and reports back. Reads that fail and documents found are recorded as
//! dependencies of the resolution.
use vstd::prelude::*;

use crate::context::{recorded, same_but_dependencies, ResolveContext};
use crate::error::{JSONError, ResolveError};
use crate::package_json::PackageJson;
use crate::path::{parent, push_path, spec_parent, spec_push};

verus! {

/// The `package.json` of the directory `dir`.
pub open spec fn package_json_in(dir: Seq<char>) -> Seq<char> {
    spec_push(dir, "package.json"@)
}

/// What the search does next.
pub enum SearchStep {
    /// Ask whether this path is a directory.
    IsDir(Seq<char>),
    /// Read this file.
    Read(Seq<char>),
    /// Canonicalize this directory.
    Canonicalize(Seq<char>),
    /// Parse these bytes as the `package.json` at this path, whose canonical location is the
    /// second path.
    Parse(Seq<char>, Seq<char>, Seq<u8>),
    /// The search is over.
    Done(Result<Option<PackageJson>, ResolveError>),
}

pub enum SearchStage {
    /// Looking for the nearest directory.
    FindDir,
    /// Reading the `package.json` of the directory.
    Read,
    /// Canonicalizing the directory whose `package.json` was read.
    Canonicalize,
    /// Parsing it.
    Parse,
    Finished,
}

/// The mathematical state of the search.
pub struct SearchView {
    pub dir: Seq<char>,
    pub symlinks: bool,
    pub bytes: Seq<u8>,
    pub realpath: Seq<char>,
    pub stage: SearchStage,
}

pub enum SearchEventView {
    Dir(bool),
    Read(Option<Seq<u8>>),
    Realpath(Result<Seq<char>, ResolveError>),
    Parsed(Result<PackageJson, JSONError>),
}

pub open spec fn stage_step(v: SearchView) -> SearchStep {
    match v.stage {
        SearchStage::FindDir => SearchStep::IsDir(v.dir),
        SearchStage::Read => SearchStep::Read(package_json_in(v.dir)),
        SearchStage::Canonicalize => SearchStep::Canonicalize(v.dir),
        SearchStage::Parse => SearchStep::Parse(package_json_in(v.dir), v.realpath, v.bytes),
        SearchStage::Finished => SearchStep::Done(Ok(None)),
    }
}

pub open spec fn moved(v: SearchView, w: SearchView) -> (SearchView, SearchStep) {
    (w, stage_step(w))
}

pub open spec fn finished(v: SearchView, r: Result<Option<PackageJson>, ResolveError>) -> (SearchView, SearchStep) {
    (SearchView { stage: SearchStage::Finished, ..v }, SearchStep::Done(r))
}

pub open spec fn expects(v: SearchView, e: SearchEventView) -> bool {
    match v.stage {
        SearchStage::FindDir => e is Dir,
        SearchStage::Read => e is Read,
        SearchStage::Canonicalize => e is Realpath,
        SearchStage::Parse => e is Parsed,
        SearchStage::Finished => false,
    }
}

/// The next state and step after the event `e`: a path that is not a directory hands over to
/// its parent (the root is searched from whatever it is); a `package.json` that cannot be read
/// hands over to the parent directory, and past the root the search finds nothing; one that is
/// read is parsed at its own path, with the canonical directory as its real location when
/// links are followed (a failure to canonicalize ends the search with that error); the parsed
/// document, or the parse error, ends the search.
pub open spec fn search_transition(v: SearchView, e: SearchEventView) -> (SearchView, SearchStep) {
    match (v.stage, e) {
        (SearchStage::FindDir, SearchEventView::Dir(is_dir)) => if is_dir {
            moved(v, SearchView { stage: SearchStage::Read, ..v })
        } else {
            match spec_parent(v.dir) {
                Some(p) => moved(v, SearchView { dir: p, ..v }),
                None => moved(v, SearchView { stage: SearchStage::Read, ..v }),
            }
        },
        (SearchStage::Read, SearchEventView::Read(r)) => match r {
            None => match spec_parent(v.dir) {
                Some(p) => moved(v, SearchView { dir: p, ..v }),
                None => finished(v, Ok(None)),
            },
            Some(b) => if v.symlinks {
                moved(v, SearchView { bytes: b, stage: SearchStage::Canonicalize, ..v })
            } else {
                moved(v, SearchView { bytes: b, realpath: package_json_in(v.dir), stage: SearchStage::Parse, ..v })
            },
        },
        (SearchStage::Canonicalize, SearchEventView::Realpath(r)) => match r {
            Ok(c) => moved(v, SearchView { realpath: package_json_in(c), stage: SearchStage::Parse, ..v }),
            Err(err) => finished(v, Err(err)),
        },
        (SearchStage::Parse, SearchEventView::Parsed(r)) => match r {
            Ok(pkg) => finished(v, Ok(Some(pkg))),
            Err(err) => finished(v, Err(ResolveError::Json(err))),
        },
        _ => (v, stage_step(v)),
    }
}

/// The dependency that the event `e` records, if any: a `package.json` that cannot be read is
/// missing; the path of a parsed document, or of a document that failed to parse, is a file
/// dependency.
pub open spec fn search_dependency(v: SearchView, e: SearchEventView) -> Option<(bool, Seq<char>)> {
    match (v.stage, e) {
        (SearchStage::Read, SearchEventView::Read(None)) => Some((false, package_json_in(v.dir))),
        (SearchStage::Parse, SearchEventView::Parsed(Ok(pkg))) => Some((true, pkg.path@)),
        (SearchStage::Parse, SearchEventView::Parsed(Err(err))) => Some((true, err.path@)),
        _ => None,
    }
}

/// `after` is `before` with the dependency `dep` recorded.
pub open spec fn records(before: ResolveContext, after: ResolveContext, dep: Option<(bool, Seq<char>)>) -> bool {
    match dep {
        None => after == before,
        Some((true, p)) => same_but_dependencies(before, after) && recorded(before.file_dependencies, after.file_dependencies, p)
            && after.missing_dependencies == before.missing_dependencies,
        Some((false, p)) => same_but_dependencies(before, after) && recorded(
            before.missing_dependencies,
            after.missing_dependencies,
            p,
        ) && after.file_dependencies == before.file_dependencies,
    }
}

/// What the caller must do next.
#[derive(Debug)]
pub enum SearchAction {
    /// Report whether this path is a directory.
    IsDir(String),
    /// Read this file and report its bytes (`None` when it cannot be read).
    Read(String),
    /// Canonicalize this directory and report the outcome.
    Canonicalize(String),
    /// Parse `bytes` as the `package.json` at `path`, whose canonical location is `realpath`,
    /// and report the outcome.
    Parse { path: String, realpath: String, bytes: Vec<u8> },
    /// The search is over with this outcome.
    Done(Result<Option<PackageJson>, ResolveError>),
}

/// What the caller reports back.
pub enum SearchEvent {
    Dir(bool),
    Read(Option<Vec<u8>>),
    Realpath(Result<String, ResolveError>),
    Parsed(Result<PackageJson, JSONError>),
}

pub open spec fn event_view(e: SearchEvent) -> SearchEventView {
    match e {
        SearchEvent::Dir(b) => SearchEventView::Dir(b),
        SearchEvent::Read(Some(b)) => SearchEventView::Read(Some(b@)),
        SearchEvent::Read(None) => SearchEventView::Read(None),
        SearchEvent::Realpath(Ok(p)) => SearchEventView::Realpath(Ok(p@)),
        SearchEvent::Realpath(Err(err)) => SearchEventView::Realpath(Err(err)),
        SearchEvent::Parsed(r) => SearchEventView::Parsed(r),
    }
}

pub open spec fn action_view(a: SearchAction) -> SearchStep {
    match a {
        SearchAction::IsDir(p) => SearchStep::IsDir(p@),
        SearchAction::Read(p) => SearchStep::Read(p@),
        SearchAction::Canonicalize(p) => SearchStep::Canonicalize(p@),
        SearchAction::Parse { path, realpath, bytes } => SearchStep::Parse(path@, realpath@, bytes@),
        SearchAction::Done(r) => SearchStep::Done(r),
    }
}

enum Stage {
    FindDir,
    Read,
    Canonicalize,
    Parse,
    Finished,
}

/// The search for the `package.json` of one path.
pub struct PackageJsonSearch {
    dir: String,
    symlinks: bool,
    bytes: Vec<u8>,
    realpath: String,
    stage: Stage,
}

impl View for PackageJsonSearch {
    type V = SearchView;

    closed spec fn view(&self) -> SearchView {
        SearchView {
            dir: self.dir@,
            symlinks: self.symlinks,
            bytes: self.bytes@,
            realpath: self.realpath@,
            stage: match self.stage {
                Stage::FindDir => SearchStage::FindDir,
                Stage::Read => SearchStage::Read,
                Stage::Canonicalize => SearchStage::Canonicalize,
                Stage::Parse => SearchStage::Parse,
                Stage::Finished => SearchStage::Finished,
            },
        }
    }
}

impl PackageJsonSearch {
    /// Start searching for the `package.json` of `path`; `symlinks` says whether links are
    /// followed to the document's real location.
    pub fn start(path: &str, symlinks: bool) -> (r: (PackageJsonSearch, SearchAction))
        ensures
            r.0@ == (SearchView {
                dir: path@,
                symlinks,
                bytes: Seq::empty(),
                realpath: Seq::empty(),
                stage: SearchStage::FindDir,
            }),
            action_view(r.1) == stage_step(r.0@),
    {
        let search = PackageJsonSearch {
            dir: path.to_owned(),
            symlinks,
            bytes: Vec::new(),
            realpath: String::new(),
            stage: Stage::FindDir,
        };
        proof {
            assert(search.bytes@ =~= Seq::<u8>::empty());
            assert(search.realpath@ =~= Seq::<char>::empty());
        }
        (search, SearchAction::IsDir(path.to_owned()))
    }

    fn current_action(&mut self) -> (r: SearchAction)
        requires
            !(old(self)@.stage is Finished),
        ensures
            final(self)@ == (SearchView { bytes: final(self)@.bytes, ..old(self)@ }),
            action_view(r) == stage_step(old(self)@),
    {
        match self.stage {
            Stage::FindDir => SearchAction::IsDir(self.dir.clone()),
            Stage::Read => SearchAction::Read(push_path(self.dir.as_str(), "package.json")),
            Stage::Canonicalize => SearchAction::Canonicalize(self.dir.clone()),
            _ => {
                let mut bytes: Vec<u8> = Vec::new();
                std::mem::swap(&mut bytes, &mut self.bytes);
                SearchAction::Parse {
                    path: push_path(self.dir.as_str(), "package.json"),
                    realpath: self.realpath.clone(),
                    bytes,
                }
            },
        }
    }

    /// Take the caller's report on the last action and move on (see [`search_transition`]);
    /// the dependency it brings is recorded in `ctx` (see [`search_dependency`]).
    pub fn on_event(&mut self, event: SearchEvent, ctx: &mut ResolveContext) -> (r: SearchAction)
        requires
            expects(old(self)@, event_view(event)),
        ensures
            (SearchView { bytes: search_transition(old(self)@, event_view(event)).0.bytes, ..final(self)@ })
                == search_transition(old(self)@, event_view(event)).0,
            action_view(r) == search_transition(old(self)@, event_view(event)).1,
            records(*old(ctx), *final(ctx), search_dependency(old(self)@, event_view(event))),
    {
        match event {
            SearchEvent::Dir(is_dir) => {
                if !is_dir {
                    if let Some(p) = parent(self.dir.as_str()) {
                        self.dir = p;
                        return self.current_action();
                    }
                }
                self.stage = Stage::Read;
                self.current_action()
            },
            SearchEvent::Read(None) => {
                ctx.add_missing_dependency(push_path(self.dir.as_str(), "package.json").as_str());
                match parent(self.dir.as_str()) {
                    Some(p) => {
                        self.dir = p;
                        self.current_action()
                    },
                    None => {
                        self.stage = Stage::Finished;
                        SearchAction::Done(Ok(None))
                    },
                }
            },
            SearchEvent::Read(Some(bytes)) => {
                self.bytes = bytes;
                if self.symlinks {
                    self.stage = Stage::Canonicalize;
                } else {
                    self.realpath = push_path(self.dir.as_str(), "package.json");
                    self.stage = Stage::Parse;
                }
                self.current_action()
            },
            SearchEvent::Realpath(Ok(c)) => {
                self.realpath = push_path(c.as_str(), "package.json");
                self.stage = Stage::Parse;
                self.current_action()
            },
            SearchEvent::Realpath(Err(err)) => {
                self.stage = Stage::Finished;
                SearchAction::Done(Err(err))
            },
            SearchEvent::Parsed(Ok(pkg)) => {
                ctx.add_file_dependency(pkg.path.as_str());
                self.stage = Stage::Finished;
                SearchAction::Done(Ok(Some(pkg)))
            },
            SearchEvent::Parsed(Err(err)) => {
                ctx.add_file_dependency(err.path.as_str());
                self.stage = Stage::Finished;
                SearchAction::Done(Err(ResolveError::Json(err)))
            },
        }
    }
}

} // verus!
