//! Canonicalizing a path: every symbolic link on it resolved, component by component.
//!
//! A path is canonical when its parent is canonical and it is not a link; a link is replaced by
//! the canonical form of its target (an absolute target as it is, normalized; a relative one
//! joined onto the directory of the link). A path met again while it is being canonicalized is
//! on a circle of links, which is an error.
//!
//! The canonicalization decides and the file system answers: each step is an action (is this
//! path a link, what does this link point to) that the caller performs and reports back.
use vstd::prelude::*;

use crate::error::{IOError, IoErrorKind, ResolveError};
use crate::json::str_eq;
use crate::path::{
    components, is_absolute, normalize, parent, spec_components, spec_is_absolute, spec_join, spec_normalize,
    spec_parent, Component, PathComponent, PathUtil,
};
use crate::path_laws::{
    abs_normal, law_parent_components, lemma_abs_normal_join, lemma_abs_normal_normalize, lemma_abs_normal_parent,
    lemma_join_root, lemma_normal_form, lemma_root_abs_normal, lemma_rooted, part_ok, parts_plain, rooted,
};

verus! {

/// One path being canonicalized: it waits for the canonical form of its parent, or, when it
/// is a link, for that of its target. `normalized` is the path with its parent canonical.
pub struct FrameView {
    pub path: Seq<char>,
    pub awaiting_target: bool,
    pub normalized: Seq<char>,
}

/// What the canonicalization does next.
pub enum CanonStep {
    /// Ask whether this path is a symbolic link (without following it).
    IsSymlink(Seq<char>),
    /// Read the target of this link.
    ReadLink(Seq<char>),
    /// Done: the canonical path.
    Done(Seq<char>),
    /// Done: reading a link failed with this error.
    Failed(ResolveError),
    /// Done: the path is on a circle of links.
    Circular,
}

pub enum CanonEventView {
    Symlink(bool),
    Link(Result<Seq<char>, ResolveError>),
}

/// The text of the last component of `s`.
pub open spec fn last_part(s: Seq<char>) -> Seq<char> {
    let cs = spec_components(s);
    if cs.len() == 0 {
        Seq::empty()
    } else {
        match cs.last() {
            PathComponent::Normal(n) => n,
            PathComponent::ParentDir => seq!['.', '.'],
            PathComponent::CurDir => seq!['.'],
            PathComponent::RootDir => seq!['/'],
        }
    }
}

pub open spec fn on_stack(stack: Seq<FrameView>, path: Seq<char>) -> bool {
    exists|k: int| 0 <= k < stack.len() && stack[k].path == path
}

/// The path on top of `stack` is canonical as `value`: it leaves the stack; the path below it
/// is done too when it waited for a link target, else it now knows its parent's canonical form
/// and asks whether it is a link itself. With nothing below, `value` is the result.
pub open spec fn spec_complete(stack: Seq<FrameView>, value: Seq<char>) -> (Seq<FrameView>, CanonStep)
    decreases stack.len(),
{
    let rest = stack.drop_last();
    if stack.len() <= 1 {
        (rest, CanonStep::Done(value))
    } else {
        let below = rest.last();
        if below.awaiting_target {
            spec_complete(rest, value)
        } else {
            let known = FrameView { normalized: spec_join(value, last_part(below.path)), ..below };
            (rest.update(rest.len() - 1, known), CanonStep::IsSymlink(below.path))
        }
    }
}

/// Start canonicalizing `path` on top of `stack`: a path already on the stack is on a circle;
/// otherwise it waits for its parent, which is canonicalized first, up to the root, which is
/// canonical as it is.
pub open spec fn spec_enter(stack: Seq<FrameView>, path: Seq<char>) -> (Seq<FrameView>, CanonStep)
    decreases spec_components(path).len(),
{
    if on_stack(stack, path) {
        (stack, CanonStep::Circular)
    } else {
        let pushed = stack.push(FrameView { path, awaiting_target: false, normalized: Seq::empty() });
        match spec_parent(path) {
            None => spec_complete(pushed, path),
            Some(p) => {
                proof {
                    law_parent_components(path);
                }
                spec_enter(pushed, p)
            },
        }
    }
}

/// The next stack and step after the file system's answer about the path on top: a path that
/// is not a link is canonical as its normalized form; for a link, its target is read; a target
/// that cannot be read ends the canonicalization with that error; an absolute target is
/// canonicalized normalized, a relative one joined onto the directory of the link, and the link
/// is canonical as its target is.
pub open spec fn canon_transition(stack: Seq<FrameView>, e: CanonEventView) -> (Seq<FrameView>, CanonStep) {
    let top = stack.last();
    match e {
        CanonEventView::Symlink(is_link) => if is_link {
            (stack, CanonStep::ReadLink(top.normalized))
        } else {
            spec_complete(stack, top.normalized)
        },
        CanonEventView::Link(Err(err)) => (stack, CanonStep::Failed(err)),
        CanonEventView::Link(Ok(link)) => {
            let waiting = stack.update(stack.len() - 1, FrameView { awaiting_target: true, ..top });
            if spec_is_absolute(link) {
                spec_enter(waiting, spec_normalize(link))
            } else {
                match spec_parent(top.normalized) {
                    Some(dir) => spec_enter(waiting, spec_join(dir, link)),
                    None => spec_complete(stack, top.normalized),
                }
            }
        },
    }
}

/// The message of the error for a circle of links.
pub open spec fn circular_message() -> Seq<char> {
    "Circular symlink"@
}

/// What the caller must do next.
#[derive(Debug)]
pub enum CanonAction {
    /// Report whether this path is a symbolic link, without following it (a path without
    /// metadata is not one).
    IsSymlink(String),
    /// Report the target of this link.
    ReadLink(String),
    /// The canonicalization is over with this outcome.
    Done(Result<String, ResolveError>),
}

/// What the caller reports back.
pub enum CanonEvent {
    /// Whether the path of the last `IsSymlink` action is a link.
    Symlink(bool),
    /// The target of the link of the last `ReadLink` action.
    Link(Result<String, ResolveError>),
}

pub open spec fn event_view(e: CanonEvent) -> CanonEventView {
    match e {
        CanonEvent::Symlink(b) => CanonEventView::Symlink(b),
        CanonEvent::Link(Ok(s)) => CanonEventView::Link(Ok(s@)),
        CanonEvent::Link(Err(err)) => CanonEventView::Link(Err(err)),
    }
}

/// The action stands for the step; the error for a circle is an I/O error with
/// [`circular_message`].
pub open spec fn action_is(a: CanonAction, s: CanonStep) -> bool {
    match s {
        CanonStep::IsSymlink(p) => a matches CanonAction::IsSymlink(q) && q@ == p,
        CanonStep::ReadLink(p) => a matches CanonAction::ReadLink(q) && q@ == p,
        CanonStep::Done(p) => a matches CanonAction::Done(Ok(q)) && q@ == p,
        CanonStep::Failed(err) => a == CanonAction::Done(Err(err)),
        CanonStep::Circular => a matches CanonAction::Done(Err(ResolveError::IOError(io))) && io.kind
            == IoErrorKind::NotFound && io.message@ == circular_message(),
    }
}

/// What the canonicalization waits for.
#[derive(PartialEq, Eq, Structural)]
pub enum Expect {
    Symlink,
    Link,
    Nothing,
}

pub open spec fn expect_after(s: CanonStep) -> Expect {
    match s {
        CanonStep::IsSymlink(_) => Expect::Symlink,
        CanonStep::ReadLink(_) => Expect::Link,
        _ => Expect::Nothing,
    }
}

/// The error for a circle of links: a `NotFound` I/O error with the given message.
fn not_found_error(message: String) -> (r: IOError)
    ensures
        r.kind == IoErrorKind::NotFound,
        r.message == message,
{
    IOError { kind: IoErrorKind::NotFound, message }
}

struct Frame {
    path: String,
    awaiting_target: bool,
    normalized: String,
}

spec fn frame_view(f: Frame) -> FrameView {
    FrameView { path: f.path@, awaiting_target: f.awaiting_target, normalized: f.normalized@ }
}

spec fn frames_view(v: Seq<Frame>) -> Seq<FrameView> {
    v.map_values(|f: Frame| frame_view(f))
}

/// The canonicalization of one path.
pub struct Canonicalization {
    frames: Vec<Frame>,
    expecting: Expect,
}

impl Canonicalization {
    /// The paths being canonicalized, innermost last.
    pub closed spec fn stack(self) -> Seq<FrameView> {
        frames_view(self.frames@)
    }

    /// What the canonicalization waits for.
    pub closed spec fn waits_for(self) -> Expect {
        self.expecting
    }

    /// It waits for an answer only with a path on the stack.
    pub closed spec fn wf(self) -> bool {
        self.expecting != Expect::Nothing ==> self.frames@.len() > 0
    }

    /// Start canonicalizing `path`.
    pub fn start(path: &str) -> (r: (Canonicalization, CanonAction))
        ensures
            r.0.wf(),
            r.0.stack() == spec_enter(Seq::empty(), path@).0,
            action_is(r.1, spec_enter(Seq::empty(), path@).1),
            r.0.waits_for() == expect_after(spec_enter(Seq::empty(), path@).1),
    {
        let mut c = Canonicalization { frames: Vec::new(), expecting: Expect::Nothing };
        proof {
            assert(frames_view(c.frames@) =~= Seq::<FrameView>::empty());
        }
        let action = c.enter(path);
        (c, action)
    }

    /// Take the file system's answer and move on (see [`canon_transition`]).
    pub fn on_event(&mut self, event: CanonEvent) -> (r: CanonAction)
        requires
            old(self).wf(),
            event is Symlink ==> old(self).waits_for() == Expect::Symlink,
            event is Link ==> old(self).waits_for() == Expect::Link,
        ensures
            final(self).wf(),
            final(self).stack() == canon_transition(old(self).stack(), event_view(event)).0,
            action_is(r, canon_transition(old(self).stack(), event_view(event)).1),
            final(self).waits_for() == expect_after(canon_transition(old(self).stack(), event_view(event)).1),
    {
        let last = self.frames.len() - 1;
        proof {
            assert(frames_view(self.frames@).last() == frame_view(self.frames@[last as int]));
        }
        match event {
            CanonEvent::Symlink(is_link) => {
                let normalized = self.frames[last].normalized.clone();
                if is_link {
                    self.expecting = Expect::Link;
                    CanonAction::ReadLink(normalized)
                } else {
                    self.complete(normalized)
                }
            },
            CanonEvent::Link(Err(err)) => {
                self.expecting = Expect::Nothing;
                CanonAction::Done(Err(err))
            },
            CanonEvent::Link(Ok(link)) => {
                let normalized = self.frames[last].normalized.clone();
                let target = if is_absolute(link.as_str()) {
                    Some(normalize(link.as_str()))
                } else {
                    match parent(normalized.as_str()) {
                        Some(dir) => Some(dir.as_str().normalize_with(link.as_str())),
                        None => None,
                    }
                };
                match target {
                    Some(t) => {
                        let ghost before = self.frames@;
                        let path = self.frames[last].path.clone();
                        self.frames.set(last, Frame { path, awaiting_target: true, normalized });
                        proof {
                            assert(frames_view(self.frames@) =~= frames_view(before).update(
                                last as int,
                                FrameView { awaiting_target: true, ..frames_view(before).last() },
                            ));
                        }
                        self.enter(t.as_str())
                    },
                    None => self.complete(normalized),
                }
            },
        }
    }

    /// Whether `path` is being canonicalized already.
    fn is_on_stack(&self, path: &str) -> (r: bool)
        ensures
            r == on_stack(frames_view(self.frames@), path@),
    {
        let mut k: usize = 0;
        while k < self.frames.len()
            invariant
                k <= self.frames@.len(),
                forall|j: int| 0 <= j < k ==> frames_view(self.frames@)[j].path != path@,
            decreases self.frames.len() - k,
        {
            if str_eq(self.frames[k].path.as_str(), path) {
                proof {
                    assert(frames_view(self.frames@)[k as int].path == path@);
                }
                return true;
            }
            k = k + 1;
        }
        false
    }

    /// See [`spec_enter`].
    fn enter(&mut self, path: &str) -> (r: CanonAction)
        ensures
            final(self).wf(),
            frames_view(final(self).frames@) == spec_enter(frames_view(old(self).frames@), path@).0,
            action_is(r, spec_enter(frames_view(old(self).frames@), path@).1),
            final(self).expecting == expect_after(spec_enter(frames_view(old(self).frames@), path@).1),
    {
        let ghost goal = spec_enter(frames_view(self.frames@), path@);
        let ghost start = path@;
        let mut current = path.to_owned();
        loop
            invariant
                spec_enter(frames_view(self.frames@), current@) == goal,
                goal == spec_enter(frames_view(old(self).frames@), start),
                start == path@,
            decreases spec_components(current@).len(),
        {
            if self.is_on_stack(current.as_str()) {
                self.expecting = Expect::Nothing;
                let message = "Circular symlink".to_owned();
                proof {
                    reveal_strlit("Circular symlink");
                }
                return CanonAction::Done(Err(ResolveError::IOError(not_found_error(message))));
            }
            let up = parent(current.as_str());
            let ghost before = self.frames@;
            let value = current.clone();
            self.frames.push(Frame { path: current, awaiting_target: false, normalized: String::new() });
            proof {
                assert(frames_view(self.frames@) =~= frames_view(before).push(
                    FrameView { path: value@, awaiting_target: false, normalized: Seq::empty() },
                ));
            }
            match up {
                None => {
                    return self.complete(value);
                },
                Some(p) => {
                    proof {
                        law_parent_components(value@);
                    }
                    current = p;
                },
            }
        }
    }

    /// See [`spec_complete`].
    fn complete(&mut self, value: String) -> (r: CanonAction)
        requires
            old(self).frames@.len() > 0,
        ensures
            final(self).wf(),
            frames_view(final(self).frames@) == spec_complete(frames_view(old(self).frames@), value@).0,
            action_is(r, spec_complete(frames_view(old(self).frames@), value@).1),
            final(self).expecting == expect_after(spec_complete(frames_view(old(self).frames@), value@).1),
    {
        let ghost goal = spec_complete(frames_view(self.frames@), value@);
        loop
            invariant
                self.frames@.len() > 0,
                spec_complete(frames_view(self.frames@), value@) == goal,
                goal == spec_complete(frames_view(old(self).frames@), value@),
            decreases self.frames@.len(),
        {
            let ghost before = self.frames@;
            self.frames.pop();
            proof {
                assert(frames_view(self.frames@) =~= frames_view(before).drop_last());
            }
            if self.frames.len() == 0 {
                self.expecting = Expect::Nothing;
                return CanonAction::Done(Ok(value));
            }
            let last = self.frames.len() - 1;
            proof {
                assert(frames_view(self.frames@).last() == frame_view(self.frames@[last as int]));
            }
            if !self.frames[last].awaiting_target {
                let path = self.frames[last].path.clone();
                let part = last_part_of(path.as_str());
                let normalized = value.as_str().normalize_with(part.as_str());
                let ghost rest = self.frames@;
                self.frames.set(last, Frame { path: path.clone(), awaiting_target: false, normalized });
                proof {
                    assert(frames_view(self.frames@) =~= frames_view(rest).update(
                        last as int,
                        FrameView { normalized: spec_join(value@, last_part(path@)), ..frames_view(rest).last() },
                    ));
                }
                self.expecting = Expect::Symlink;
                return CanonAction::IsSymlink(path);
            }
        }
    }
}

/// The text of the last component of `path` (see [`last_part`]).
fn last_part_of(path: &str) -> (r: String)
    ensures
        r@ == last_part(path@),
{
    let comps = components(path);
    if comps.len() == 0 {
        return String::new();
    }
    proof {
        assert(crate::path::components_view(comps@).last() == comps@.last()@);
    }
    match &comps[comps.len() - 1] {
        Component::Normal(n) => n.clone(),
        Component::ParentDir => {
            let r = "..".to_owned();
            proof {
                reveal_strlit("..");
                assert(r@ =~= seq!['.', '.']);
            }
            r
        },
        Component::CurDir => {
            let r = ".".to_owned();
            proof {
                reveal_strlit(".");
                assert(r@ =~= seq!['.']);
            }
            r
        },
        Component::RootDir => {
            let r = "/".to_owned();
            proof {
                reveal_strlit("/");
                assert(r@ =~= seq!['/']);
            }
            r
        },
    }
}


// ---------------------------------------------------------------------------------------------
// Paths without links
// ---------------------------------------------------------------------------------------------

/// Where canonicalizing from `stack` and `step` ends when the file system says of every path
/// that it is not a link, after at most `fuel` answers.
pub open spec fn run_without_links(stack: Seq<FrameView>, step: CanonStep, fuel: nat) -> CanonStep
    decreases fuel,
{
    if step is IsSymlink && fuel > 0 {
        let next = canon_transition(stack, CanonEventView::Symlink(false));
        run_without_links(next.0, next.1, (fuel - 1) as nat)
    } else {
        step
    }
}

spec fn waiting_frame(path: Seq<char>) -> FrameView {
    FrameView { path, awaiting_target: false, normalized: Seq::empty() }
}

/// The frames of `rooted(parts, m)` down to `rooted(parts, j)`, bottom first.
spec fn chain(parts: Seq<Seq<char>>, j: int) -> Seq<FrameView> {
    Seq::new((parts.len() - j + 1) as nat, |i: int| waiting_frame(rooted(parts, parts.len() - i)))
}

/// The top of `chain(parts, j)`, knowing its normalized form.
spec fn known_chain(parts: Seq<Seq<char>>, j: int) -> Seq<FrameView> {
    chain(parts, j).update(parts.len() - j, FrameView { normalized: rooted(parts, j), ..waiting_frame(rooted(parts, j)) })
}

proof fn lemma_descent(parts: Seq<Seq<char>>, k: int)
    requires
        parts_plain(parts),
        0 <= k <= parts.len(),
    ensures
        spec_enter(chain(parts, k + 1), rooted(parts, k)) == spec_complete(chain(parts, 0), rooted(parts, 0)),
    decreases k,
{
    let m = parts.len() as int;
    let below = chain(parts, k + 1);
    let here = rooted(parts, k);
    lemma_rooted(parts, k);
    assert forall|i: int| 0 <= i < below.len() implies (#[trigger] below[i]).path != here by {
        lemma_rooted(parts, m - i);
    }
    assert(!on_stack(below, here));
    assert(below.push(waiting_frame(here)) =~= chain(parts, k));
    if k > 0 {
        lemma_descent(parts, k - 1);
    }
}

proof fn lemma_ascent_step(parts: Seq<Seq<char>>, j: int)
    requires
        parts_plain(parts),
        0 <= j < parts.len(),
    ensures
        spec_complete(chain(parts, j), rooted(parts, j)) == (known_chain(parts, j + 1), CanonStep::IsSymlink(
            rooted(parts, j + 1),
        )),
{
    let m = parts.len() as int;
    let stack = chain(parts, j);
    assert(stack.drop_last() =~= chain(parts, j + 1));
    lemma_rooted(parts, j + 1);
    let next = rooted(parts, j + 1);
    assert(spec_components(next).len() > 0);
    assert(last_part(next) == parts[j]);
    assert(chain(parts, j + 1).last() == waiting_frame(next));
}

proof fn lemma_run(parts: Seq<Seq<char>>, j: int, fuel: nat)
    requires
        parts_plain(parts),
        1 <= j <= parts.len(),
        fuel >= parts.len() - j + 1,
    ensures
        run_without_links(known_chain(parts, j), CanonStep::IsSymlink(rooted(parts, j)), fuel) == CanonStep::Done(
            rooted(parts, parts.len() as int),
        ),
    decreases parts.len() - j,
{
    let m = parts.len() as int;
    let s = known_chain(parts, j);
    assert(s.last().normalized == rooted(parts, j));
    assert(s.drop_last() =~= chain(parts, j).drop_last());
    assert(spec_complete(s, rooted(parts, j)) == spec_complete(chain(parts, j), rooted(parts, j)));
    let next = canon_transition(s, CanonEventView::Symlink(false));
    assert(next == spec_complete(s, rooted(parts, j)));
    assert(run_without_links(s, CanonStep::IsSymlink(rooted(parts, j)), fuel) == run_without_links(
        next.0,
        next.1,
        (fuel - 1) as nat,
    ));
    if j == m {
        assert(chain(parts, j).len() == 1);
        assert(next.1 == CanonStep::Done(rooted(parts, j)));
    } else {
        lemma_ascent_step(parts, j);
        lemma_run(parts, j + 1, (fuel - 1) as nat);
    }
}

/// A path in normal form that starts at the root, none of whose components is a link, is its
/// own canonical form: the canonicalization asks about each component from the root down and
/// ends with the path itself.
pub proof fn law_canonical_without_links(path: Seq<char>)
    requires
        spec_is_absolute(path),
        spec_normalize(path) == path,
    ensures
        run_without_links(
            spec_enter(Seq::empty(), path).0,
            spec_enter(Seq::empty(), path).1,
            spec_components(path).len(),
        ) == CanonStep::Done(path),
{
    let parts = lemma_normal_form(path);
    let m = parts.len() as int;
    lemma_rooted(parts, m);
    assert(chain(parts, m + 1) =~= Seq::<FrameView>::empty());
    lemma_descent(parts, m);
    if m == 0 {
        assert(chain(parts, 0).len() == 1);
    } else {
        lemma_ascent_step(parts, 0);
        lemma_run(parts, 1, spec_components(path).len());
    }
}

/// Every path on the stack is in normal form and starts at the root, and so is the normalized
/// form of every path that waits for the target of its link.
pub open spec fn stack_ok(stack: Seq<FrameView>) -> bool {
    forall|k: int| 0 <= k < stack.len() ==> abs_normal((#[trigger] stack[k]).path) && (stack[k].awaiting_target
        ==> abs_normal(stack[k].normalized))
}

/// A question about the path on top is asked of a stack that has one, whose normalized form is
/// in normal form and starts at the root; so is a canonical result.
pub open spec fn step_ok(stack: Seq<FrameView>, step: CanonStep) -> bool {
    &&& (step is IsSymlink || step is ReadLink) ==> stack.len() > 0 && abs_normal(stack.last().normalized)
    &&& step matches CanonStep::Done(v) ==> abs_normal(v)
}

/// The last component of a path in normal form that starts at the root is the root itself, or
/// a name that is neither empty nor rooted.
proof fn lemma_last_part(p: Seq<char>)
    requires
        abs_normal(p),
    ensures
        last_part(p) == seq!['/'] || (last_part(p).len() > 0 && !spec_is_absolute(last_part(p))),
{
    let parts = lemma_normal_form(p);
    let n = parts.len() as int;
    lemma_rooted(parts, n);
    assert(parts.take(n) =~= parts);
    if n > 0 {
        assert(part_ok(parts[n - 1]));
        let name = parts[n - 1];
        assert(name.contains(name[0]));
    } else {
        assert(parts.take(0) =~= Seq::<Seq<char>>::empty());
        assert(spec_components(p).last() == PathComponent::RootDir);
    }
}

proof fn lemma_complete_ok(stack: Seq<FrameView>, value: Seq<char>)
    requires
        stack_ok(stack),
        stack.len() >= 1,
        abs_normal(value),
    ensures
        stack_ok(spec_complete(stack, value).0),
        step_ok(spec_complete(stack, value).0, spec_complete(stack, value).1),
    decreases stack.len(),
{
    let rest = stack.drop_last();
    assert(stack_ok(rest)) by {
        assert forall|k: int| 0 <= k < rest.len() implies abs_normal((#[trigger] rest[k]).path) && (
        rest[k].awaiting_target ==> abs_normal(rest[k].normalized)) by {
            assert(rest[k] == stack[k]);
        }
    }
    if stack.len() > 1 {
        let below = rest.last();
        assert(below == stack[stack.len() - 2]);
        if below.awaiting_target {
            lemma_complete_ok(rest, value);
        } else {
            let part = last_part(below.path);
            lemma_last_part(below.path);
            if part == seq!['/'] {
                lemma_join_root(value);
                lemma_root_abs_normal();
            } else {
                lemma_abs_normal_join(value, part);
            }
            let known = FrameView { normalized: spec_join(value, part), ..below };
            let next = rest.update(rest.len() - 1, known);
            assert forall|k: int| 0 <= k < next.len() implies abs_normal((#[trigger] next[k]).path) && (
            next[k].awaiting_target ==> abs_normal(next[k].normalized)) by {
                if k < next.len() - 1 {
                    assert(next[k] == rest[k]);
                }
            }
        }
    }
}

proof fn lemma_enter_ok(stack: Seq<FrameView>, path: Seq<char>)
    requires
        stack_ok(stack),
        abs_normal(path),
    ensures
        stack_ok(spec_enter(stack, path).0),
        step_ok(spec_enter(stack, path).0, spec_enter(stack, path).1),
    decreases spec_components(path).len(),
{
    if !on_stack(stack, path) {
        let pushed = stack.push(FrameView { path, awaiting_target: false, normalized: Seq::empty() });
        assert forall|k: int| 0 <= k < pushed.len() implies abs_normal((#[trigger] pushed[k]).path) && (
        pushed[k].awaiting_target ==> abs_normal(pushed[k].normalized)) by {
            if k < stack.len() {
                assert(pushed[k] == stack[k]);
            }
        }
        lemma_abs_normal_parent(path);
        match spec_parent(path) {
            None => lemma_complete_ok(pushed, path),
            Some(p) => {
                law_parent_components(path);
                lemma_enter_ok(pushed, p);
            },
        }
    }
}

/// What the file system answers, one answer per question: a link target it reports is never
/// empty.
pub open spec fn answers_ok(answers: Seq<CanonEventView>) -> bool {
    forall|k: int| 0 <= k < answers.len() ==> (#[trigger] answers[k] matches CanonEventView::Link(Ok(t)) ==> t.len() > 0)
}

proof fn lemma_transition_ok(stack: Seq<FrameView>, step: CanonStep, e: CanonEventView)
    requires
        stack_ok(stack),
        step_ok(stack, step),
        step is IsSymlink || step is ReadLink,
        e matches CanonEventView::Link(Ok(t)) ==> t.len() > 0,
    ensures
        stack_ok(canon_transition(stack, e).0),
        step_ok(canon_transition(stack, e).0, canon_transition(stack, e).1),
{
    let top = stack.last();
    match e {
        CanonEventView::Symlink(is_link) => {
            if !is_link {
                lemma_complete_ok(stack, top.normalized);
            }
        },
        CanonEventView::Link(Err(_)) => {},
        CanonEventView::Link(Ok(link)) => {
            let waiting = stack.update(stack.len() - 1, FrameView { awaiting_target: true, ..top });
            assert forall|k: int| 0 <= k < waiting.len() implies abs_normal((#[trigger] waiting[k]).path) && (
            waiting[k].awaiting_target ==> abs_normal(waiting[k].normalized)) by {
                if k < waiting.len() - 1 {
                    assert(waiting[k] == stack[k]);
                }
            }
            if spec_is_absolute(link) {
                lemma_abs_normal_normalize(link);
                lemma_enter_ok(waiting, spec_normalize(link));
            } else {
                lemma_abs_normal_parent(top.normalized);
                match spec_parent(top.normalized) {
                    Some(dir) => {
                        lemma_abs_normal_join(dir, link);
                        lemma_enter_ok(waiting, spec_join(dir, link));
                    },
                    None => lemma_complete_ok(stack, top.normalized),
                }
            }
        },
    }
}

/// The canonicalization run on `answers`: each question is answered by the next answer, as
/// long as it is an answer of the kind the question asks for.
pub open spec fn run_on(stack: Seq<FrameView>, step: CanonStep, answers: Seq<CanonEventView>) -> CanonStep
    decreases answers.len(),
{
    if answers.len() > 0 && ((step is IsSymlink && answers[0] is Symlink) || (step is ReadLink && answers[0] is Link)) {
        let next = canon_transition(stack, answers[0]);
        run_on(next.0, next.1, answers.skip(1))
    } else {
        step
    }
}

proof fn lemma_run_ok(stack: Seq<FrameView>, step: CanonStep, answers: Seq<CanonEventView>)
    requires
        stack_ok(stack),
        step_ok(stack, step),
        answers_ok(answers),
    ensures
        run_on(stack, step, answers) matches CanonStep::Done(c) ==> abs_normal(c),
    decreases answers.len(),
{
    if answers.len() > 0 && ((step is IsSymlink && answers[0] is Symlink) || (step is ReadLink && answers[0] is Link)) {
        assert(answers[0] matches CanonEventView::Link(Ok(t)) ==> t.len() > 0);
        lemma_transition_ok(stack, step, answers[0]);
        let next = canon_transition(stack, answers[0]);
        let rest = answers.skip(1);
        assert forall|k: int| 0 <= k < rest.len() implies (#[trigger] rest[k] matches CanonEventView::Link(Ok(t))
            ==> t.len() > 0) by {
            assert(rest[k] == answers[k + 1]);
        }
        lemma_run_ok(next.0, next.1, rest);
    }
}

/// Canonicalization is idempotent. Whatever the file system answers (a link target it reports
/// is never empty), the canonical form `c` of a path in normal form that starts at the root is
/// such a path too; and when the file system reports none of the paths along `c` as a link,
/// canonicalizing `c` gives `c` back.
pub proof fn law_canonical_idempotent(path: Seq<char>, answers: Seq<CanonEventView>, c: Seq<char>)
    requires
        abs_normal(path),
        answers_ok(answers),
        run_on(spec_enter(Seq::empty(), path).0, spec_enter(Seq::empty(), path).1, answers) == CanonStep::Done(c),
    ensures
        spec_is_absolute(c),
        spec_normalize(c) == c,
        run_without_links(
            spec_enter(Seq::empty(), c).0,
            spec_enter(Seq::empty(), c).1,
            spec_components(c).len(),
        ) == CanonStep::Done(c),
{
    let empty = Seq::<FrameView>::empty();
    lemma_enter_ok(empty, path);
    lemma_run_ok(spec_enter(empty, path).0, spec_enter(empty, path).1, answers);
    law_canonical_without_links(c);
}

/// The outcome of a canonicalization, with the file system's own canonical form of the path
/// (`fallback`, asked for only when the walk over the links failed) taken in its place when the
/// walk failed and the file system has one; otherwise the walk's error stands.
pub fn canonical_or_fallback(walk: Result<String, ResolveError>, fallback: Option<String>) -> (r: Result<String, ResolveError>)
    ensures
        walk is Ok ==> r == walk,
        walk is Err && fallback is Some ==> r == Ok::<String, ResolveError>(fallback->0),
        walk is Err && fallback is None ==> r == walk,
{
    match walk {
        Ok(c) => Ok(c),
        Err(e) => match fallback {
            Some(c) => Ok(c),
            None => Err(e),
        },
    }
}

} // verus!
