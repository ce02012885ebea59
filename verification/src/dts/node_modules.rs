//! Looking a bare specifier up in the `node_modules` directories of a directory and its
//! ancestors for declaration files, in TypeScript's two passes: first every ancestor for
//! TypeScript and declaration files, each `node_modules` followed by its `@types`, then every
//! ancestor again for JavaScript files.
//!
//! The walk decides and the resolver does the work: each step is an action (a directory check,
//! or the lookup of the specifier inside one `node_modules` directory) that the resolver
//! performs and reports back as an event.
use vstd::prelude::*;

use crate::dts::{
    dts_at_types_specifier, spec_dts_mangle_scoped_name, Extensions, DECLARATION_BITS, TYPESCRIPT_BITS,
};
use crate::error::ResolveError;
use crate::path::{parent, push_path, spec_parent, spec_push};

verus! {

/// What the walk does next.
pub enum ModulesStep {
    /// Ask whether this path is a directory.
    IsDir(Seq<char>),
    /// Look the specifier up, with these extensions, inside this `node_modules` directory.
    ResolveIn(Extensions, Seq<char>, Seq<char>),
    /// The walk is over.
    Done(Result<Option<Seq<char>>, ResolveError>),
}

/// Where the walk stands at its current ancestor.
pub enum ModulesStage {
    /// First pass: whether `node_modules` is a directory.
    CheckModules,
    /// First pass: the specifier inside `node_modules`.
    ResolveModules,
    /// First pass: whether `node_modules/@types` is a directory.
    CheckTypes,
    /// First pass: the mangled specifier inside `node_modules/@types`.
    ResolveTypes,
    /// Second pass: whether `node_modules` is a directory.
    CheckModulesAgain,
    /// Second pass: the specifier inside `node_modules`.
    ResolveModulesAgain,
    Finished,
}

/// The mathematical state of the walk.
pub struct ModulesView {
    pub directory: Seq<char>,
    pub specifier: Seq<char>,
    /// The specifier looked up under `@types`.
    pub types_specifier: Seq<char>,
    /// The extensions of the first pass.
    pub priority: Extensions,
    /// The extensions of the second pass.
    pub secondary: Extensions,
    pub ancestor: Seq<char>,
    pub stage: ModulesStage,
}

pub enum ModulesEventView {
    Dir(bool),
    Resolved(Result<Option<Seq<char>>, ResolveError>),
}

pub open spec fn node_modules_in(dir: Seq<char>) -> Seq<char> {
    spec_push(dir, "node_modules"@)
}

pub open spec fn types_in(dir: Seq<char>) -> Seq<char> {
    spec_push(node_modules_in(dir), "@types"@)
}

pub open spec fn declaration() -> Extensions {
    Extensions(DECLARATION_BITS)
}

pub open spec fn stage_step(v: ModulesView) -> ModulesStep {
    match v.stage {
        ModulesStage::CheckModules | ModulesStage::CheckModulesAgain => ModulesStep::IsDir(node_modules_in(v.ancestor)),
        ModulesStage::ResolveModules => ModulesStep::ResolveIn(v.priority, v.specifier, node_modules_in(v.ancestor)),
        ModulesStage::CheckTypes => ModulesStep::IsDir(types_in(v.ancestor)),
        ModulesStage::ResolveTypes => ModulesStep::ResolveIn(declaration(), v.types_specifier, types_in(v.ancestor)),
        ModulesStage::ResolveModulesAgain => ModulesStep::ResolveIn(
            v.secondary,
            v.specifier,
            node_modules_in(v.ancestor),
        ),
        ModulesStage::Finished => ModulesStep::Done(Ok(None)),
    }
}

pub open spec fn moved(v: ModulesView, ancestor: Seq<char>, stage: ModulesStage) -> (ModulesView, ModulesStep) {
    let n = ModulesView { ancestor, stage, ..v };
    (n, stage_step(n))
}

pub open spec fn finished(v: ModulesView, r: Result<Option<Seq<char>>, ResolveError>) -> (ModulesView, ModulesStep) {
    (ModulesView { stage: ModulesStage::Finished, ..v }, ModulesStep::Done(r))
}

/// The start of the second pass: the directory itself, when there are extensions left for it.
pub open spec fn second_pass(v: ModulesView) -> (ModulesView, ModulesStep) {
    if v.secondary.0 != 0 {
        moved(v, v.directory, ModulesStage::CheckModulesAgain)
    } else {
        moved(v, v.directory, ModulesStage::Finished)
    }
}

/// The next ancestor of the first pass, or the second pass after the root.
pub open spec fn next_in_first_pass(v: ModulesView) -> (ModulesView, ModulesStep) {
    match spec_parent(v.ancestor) {
        Some(p) => moved(v, p, ModulesStage::CheckModules),
        None => second_pass(v),
    }
}

/// The next ancestor of the second pass, or the end after the root.
pub open spec fn next_in_second_pass(v: ModulesView) -> (ModulesView, ModulesStep) {
    match spec_parent(v.ancestor) {
        Some(p) => moved(v, p, ModulesStage::CheckModulesAgain),
        None => moved(v, v.ancestor, ModulesStage::Finished),
    }
}

/// The walk of `specifier` (whose package name is `package_name` and whose rest is `rest`)
/// from `directory`, with the extensions `extensions`, before its first step.
pub open spec fn modules_start(
    directory: Seq<char>,
    specifier: Seq<char>,
    package_name: Seq<char>,
    rest: Seq<char>,
    extensions: Extensions,
) -> (ModulesView, ModulesStep) {
    let both = TYPESCRIPT_BITS | DECLARATION_BITS;
    let v = ModulesView {
        directory,
        specifier,
        types_specifier: spec_dts_mangle_scoped_name(package_name) + rest,
        priority: Extensions(extensions.0 & both),
        secondary: Extensions(extensions.0 & !both),
        ancestor: directory,
        stage: ModulesStage::CheckModules,
    };
    if v.priority.0 != 0 {
        (v, stage_step(v))
    } else {
        second_pass(v)
    }
}

pub open spec fn expects(v: ModulesView, e: ModulesEventView) -> bool {
    match v.stage {
        ModulesStage::CheckModules | ModulesStage::CheckTypes | ModulesStage::CheckModulesAgain => e is Dir,
        ModulesStage::ResolveModules | ModulesStage::ResolveTypes | ModulesStage::ResolveModulesAgain => e is Resolved,
        ModulesStage::Finished => false,
    }
}

/// The next state and step after the event `e`: an ancestor without `node_modules` (or without
/// `@types`) is passed over; a lookup that finds a path or fails ends the walk with it; a lookup
/// that finds nothing moves on, in the first pass from `node_modules` to its `@types` when
/// declarations are wanted, then to the parent; after the root the first pass hands over to the
/// second, and the second ends the walk with nothing.
pub open spec fn modules_transition(v: ModulesView, e: ModulesEventView) -> (ModulesView, ModulesStep) {
    match (v.stage, e) {
        (ModulesStage::CheckModules, ModulesEventView::Dir(is_dir)) => if is_dir {
            moved(v, v.ancestor, ModulesStage::ResolveModules)
        } else {
            next_in_first_pass(v)
        },
        (ModulesStage::ResolveModules, ModulesEventView::Resolved(r)) => match r {
            Ok(None) => if v.priority.spec_contains(declaration()) {
                moved(v, v.ancestor, ModulesStage::CheckTypes)
            } else {
                next_in_first_pass(v)
            },
            other => finished(v, other),
        },
        (ModulesStage::CheckTypes, ModulesEventView::Dir(is_dir)) => if is_dir {
            moved(v, v.ancestor, ModulesStage::ResolveTypes)
        } else {
            next_in_first_pass(v)
        },
        (ModulesStage::ResolveTypes, ModulesEventView::Resolved(r)) => match r {
            Ok(None) => next_in_first_pass(v),
            other => finished(v, other),
        },
        (ModulesStage::CheckModulesAgain, ModulesEventView::Dir(is_dir)) => if is_dir {
            moved(v, v.ancestor, ModulesStage::ResolveModulesAgain)
        } else {
            next_in_second_pass(v)
        },
        (ModulesStage::ResolveModulesAgain, ModulesEventView::Resolved(r)) => match r {
            Ok(None) => next_in_second_pass(v),
            other => finished(v, other),
        },
        _ => (v, stage_step(v)),
    }
}

pub open spec fn first_pass(s: ModulesStage) -> bool {
    s is CheckModules || s is ResolveModules || s is CheckTypes || s is ResolveTypes
}

/// The walk goes in two passes: the first hands over only to the start of the second (at the
/// starting directory) or to the end, and the second never goes back to the first.
pub proof fn law_two_passes(v: ModulesView, e: ModulesEventView)
    requires
        expects(v, e),
    ensures
        first_pass(v.stage) ==> first_pass(modules_transition(v, e).0.stage) || (modules_transition(v, e).0.stage
            is CheckModulesAgain && modules_transition(v, e).0.ancestor == v.directory)
            || modules_transition(v, e).0.stage is Finished,
        !first_pass(v.stage) ==> !first_pass(modules_transition(v, e).0.stage),
{
}

/// The first pass looks only for TypeScript and declaration files, the second only for the
/// other (JavaScript) ones, and together they look for all the extensions asked for.
pub proof fn law_pass_extensions(
    directory: Seq<char>,
    specifier: Seq<char>,
    package_name: Seq<char>,
    rest: Seq<char>,
    extensions: Extensions,
)
    ensures
        ({
            let v = modules_start(directory, specifier, package_name, rest, extensions).0;
            &&& v.priority.0 & !(TYPESCRIPT_BITS | DECLARATION_BITS) == 0
            &&& v.secondary.0 & (TYPESCRIPT_BITS | DECLARATION_BITS) == 0
            &&& v.priority.0 | v.secondary.0 == extensions.0
        }),
{
    let x = extensions.0;
    let both: u8 = TYPESCRIPT_BITS | DECLARATION_BITS;
    assert((x & both) & !both == 0 && (x & !both) & both == 0 && ((x & both) | (x & !both)) == x) by (bit_vector);
}

/// What the resolver must do next for a `node_modules` walk.
#[derive(Debug)]
pub enum ModulesAction {
    /// Report whether this path is a directory.
    IsDir(String),
    /// Look `specifier` up inside the `node_modules` directory `dir` with `extensions` (the
    /// package's `exports`, `typesVersions`, then its files and directories) and report the
    /// outcome.
    ResolveIn { extensions: Extensions, specifier: String, dir: String },
    /// The walk is over with this outcome.
    Done(Result<Option<String>, ResolveError>),
}

/// What the resolver reports back to a `node_modules` walk.
pub enum ModulesEvent {
    /// Whether the path of the last `IsDir` action is a directory.
    Dir(bool),
    /// The outcome of the last `ResolveIn` action.
    Resolved(Result<Option<String>, ResolveError>),
}

pub open spec fn result_view(r: Result<Option<String>, ResolveError>) -> Result<Option<Seq<char>>, ResolveError> {
    match r {
        Ok(Some(s)) => Ok(Some(s@)),
        Ok(None) => Ok(None),
        Err(e) => Err(e),
    }
}

pub open spec fn event_view(e: ModulesEvent) -> ModulesEventView {
    match e {
        ModulesEvent::Dir(b) => ModulesEventView::Dir(b),
        ModulesEvent::Resolved(r) => ModulesEventView::Resolved(result_view(r)),
    }
}

pub open spec fn action_view(a: ModulesAction) -> ModulesStep {
    match a {
        ModulesAction::IsDir(p) => ModulesStep::IsDir(p@),
        ModulesAction::ResolveIn { extensions, specifier, dir } => ModulesStep::ResolveIn(
            extensions,
            specifier@,
            dir@,
        ),
        ModulesAction::Done(r) => ModulesStep::Done(result_view(r)),
    }
}

enum Stage {
    CheckModules,
    ResolveModules,
    CheckTypes,
    ResolveTypes,
    CheckModulesAgain,
    ResolveModulesAgain,
    Finished,
}

/// The two-pass `node_modules` walk of one specifier.
pub struct DtsModulesWalk {
    directory: String,
    specifier: String,
    types_specifier: String,
    priority: Extensions,
    secondary: Extensions,
    ancestor: String,
    stage: Stage,
}

impl View for DtsModulesWalk {
    type V = ModulesView;

    closed spec fn view(&self) -> ModulesView {
        ModulesView {
            directory: self.directory@,
            specifier: self.specifier@,
            types_specifier: self.types_specifier@,
            priority: self.priority,
            secondary: self.secondary,
            ancestor: self.ancestor@,
            stage: match self.stage {
                Stage::CheckModules => ModulesStage::CheckModules,
                Stage::ResolveModules => ModulesStage::ResolveModules,
                Stage::CheckTypes => ModulesStage::CheckTypes,
                Stage::ResolveTypes => ModulesStage::ResolveTypes,
                Stage::CheckModulesAgain => ModulesStage::CheckModulesAgain,
                Stage::ResolveModulesAgain => ModulesStage::ResolveModulesAgain,
                Stage::Finished => ModulesStage::Finished,
            },
        }
    }
}

impl DtsModulesWalk {
    /// Start the walk of `specifier` (whose package name is `package_name` and whose rest is
    /// `rest`) from `directory` (see [`modules_start`]).
    pub fn start(directory: &str, specifier: &str, package_name: &str, rest: &str, extensions: Extensions) -> (r: (
        DtsModulesWalk,
        ModulesAction,
    ))
        ensures
            (r.0@, action_view(r.1)) == modules_start(directory@, specifier@, package_name@, rest@, extensions),
    {
        let both = Extensions::typescript().union(Extensions::declaration());
        let mut walk = DtsModulesWalk {
            directory: directory.to_owned(),
            specifier: specifier.to_owned(),
            types_specifier: dts_at_types_specifier(package_name, rest),
            priority: extensions.intersection(both),
            secondary: extensions.difference(both),
            ancestor: directory.to_owned(),
            stage: Stage::CheckModules,
        };
        if walk.priority.is_empty() {
            let action = walk.second_pass();
            return (walk, action);
        }
        let action = walk.current_action();
        (walk, action)
    }

    fn current_action(&self) -> (r: ModulesAction)
        ensures
            action_view(r) == stage_step(self@),
    {
        match self.stage {
            Stage::CheckModules | Stage::CheckModulesAgain => ModulesAction::IsDir(
                push_path(self.ancestor.as_str(), "node_modules"),
            ),
            Stage::ResolveModules => ModulesAction::ResolveIn {
                extensions: self.priority,
                specifier: self.specifier.clone(),
                dir: push_path(self.ancestor.as_str(), "node_modules"),
            },
            Stage::CheckTypes => {
                let modules = push_path(self.ancestor.as_str(), "node_modules");
                ModulesAction::IsDir(push_path(modules.as_str(), "@types"))
            },
            Stage::ResolveTypes => {
                let modules = push_path(self.ancestor.as_str(), "node_modules");
                ModulesAction::ResolveIn {
                    extensions: Extensions::declaration(),
                    specifier: self.types_specifier.clone(),
                    dir: push_path(modules.as_str(), "@types"),
                }
            },
            Stage::ResolveModulesAgain => ModulesAction::ResolveIn {
                extensions: self.secondary,
                specifier: self.specifier.clone(),
                dir: push_path(self.ancestor.as_str(), "node_modules"),
            },
            Stage::Finished => ModulesAction::Done(Ok(None)),
        }
    }

    fn second_pass(&mut self) -> (r: ModulesAction)
        ensures
            (final(self)@, action_view(r)) == second_pass(old(self)@),
    {
        self.ancestor = self.directory.clone();
        if self.secondary.is_empty() {
            self.stage = Stage::Finished;
        } else {
            self.stage = Stage::CheckModulesAgain;
        }
        self.current_action()
    }

    fn next_in_first_pass(&mut self) -> (r: ModulesAction)
        ensures
            (final(self)@, action_view(r)) == next_in_first_pass(old(self)@),
    {
        match parent(self.ancestor.as_str()) {
            Some(p) => {
                self.ancestor = p;
                self.stage = Stage::CheckModules;
                self.current_action()
            },
            None => self.second_pass(),
        }
    }

    fn next_in_second_pass(&mut self) -> (r: ModulesAction)
        ensures
            (final(self)@, action_view(r)) == next_in_second_pass(old(self)@),
    {
        match parent(self.ancestor.as_str()) {
            Some(p) => {
                self.ancestor = p;
                self.stage = Stage::CheckModulesAgain;
            },
            None => {
                self.stage = Stage::Finished;
            },
        }
        self.current_action()
    }

    /// Take the resolver's report on the last action and move on (see
    /// [`modules_transition`]).
    pub fn on_event(&mut self, event: ModulesEvent) -> (r: ModulesAction)
        requires
            expects(old(self)@, event_view(event)),
        ensures
            (final(self)@, action_view(r)) == modules_transition(old(self)@, event_view(event)),
    {
        match event {
            ModulesEvent::Dir(is_dir) => match self.stage {
                Stage::CheckModules => {
                    if is_dir {
                        self.stage = Stage::ResolveModules;
                        self.current_action()
                    } else {
                        self.next_in_first_pass()
                    }
                },
                Stage::CheckTypes => {
                    if is_dir {
                        self.stage = Stage::ResolveTypes;
                        self.current_action()
                    } else {
                        self.next_in_first_pass()
                    }
                },
                _ => {
                    if is_dir {
                        self.stage = Stage::ResolveModulesAgain;
                        self.current_action()
                    } else {
                        self.next_in_second_pass()
                    }
                },
            },
            ModulesEvent::Resolved(r) => {
                match r {
                    Ok(None) => {},
                    other => {
                        self.stage = Stage::Finished;
                        return ModulesAction::Done(other);
                    },
                }
                match self.stage {
                    Stage::ResolveModules => {
                        if self.priority.contains(Extensions::declaration()) {
                            self.stage = Stage::CheckTypes;
                            self.current_action()
                        } else {
                            self.next_in_first_pass()
                        }
                    },
                    Stage::ResolveTypes => self.next_in_first_pass(),
                    _ => self.next_in_second_pass(),
                }
            },
        }
    }
}

} // verus!
