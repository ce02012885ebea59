//! Path utilities.
//!
//! Paths are handled as text with the POSIX conventions of the standard library's `Path`:
//! `/` separates components, a leading `/` is the root, empty and non-leading `.` components are
//! dropped, and `..` is the parent directory. Normalization works on these components without
//! performing I/O and without resolving links.
use vstd::prelude::*;

use crate::text::{chars_to_string, str_chars};

verus! {

broadcast use vstd::seq::group_seq_axioms;

/// A component of a path.
#[derive(Debug, Clone, PartialEq, Eq)]
pub enum Component {
    RootDir,
    CurDir,
    ParentDir,
    Normal(String),
}

/// The mathematical counterpart of [`Component`].
pub enum PathComponent {
    RootDir,
    CurDir,
    ParentDir,
    Normal(Seq<char>),
}

impl View for Component {
    type V = PathComponent;

    open spec fn view(&self) -> PathComponent {
        match self {
            Component::RootDir => PathComponent::RootDir,
            Component::CurDir => PathComponent::CurDir,
            Component::ParentDir => PathComponent::ParentDir,
            Component::Normal(s) => PathComponent::Normal(s@),
        }
    }
}

pub open spec fn components_view(v: Seq<Component>) -> Seq<PathComponent> {
    v.map_values(|c: Component| c@)
}

/// `s` split at every `/` (the pieces between separators, empty ones included).
pub open spec fn split_slash(s: Seq<char>) -> Seq<Seq<char>>
    decreases s.len(),
{
    if s.len() == 0 {
        seq![Seq::empty()]
    } else {
        let p = split_slash(s.drop_last());
        if s.last() == '/' {
            p.push(Seq::empty())
        } else {
            p.update(p.len() - 1, p.last().push(s.last()))
        }
    }
}

pub proof fn lemma_split_slash_len(s: Seq<char>)
    ensures
        split_slash(s).len() >= 1,
    decreases s.len(),
{
    if s.len() > 0 {
        lemma_split_slash_len(s.drop_last());
    }
}

pub open spec fn is_dot(seg: Seq<char>) -> bool {
    seg.len() == 1 && seg[0] == '.'
}

pub open spec fn is_dot_dot(seg: Seq<char>) -> bool {
    seg.len() == 2 && seg[0] == '.' && seg[1] == '.'
}

/// The components contributed by one piece between separators.
pub open spec fn segment_components(seg: Seq<char>) -> Seq<PathComponent> {
    if seg.len() == 0 || is_dot(seg) {
        Seq::empty()
    } else if is_dot_dot(seg) {
        seq![PathComponent::ParentDir]
    } else {
        seq![PathComponent::Normal(seg)]
    }
}

pub open spec fn segments_components(segs: Seq<Seq<char>>) -> Seq<PathComponent>
    decreases segs.len(),
{
    if segs.len() == 0 {
        Seq::empty()
    } else {
        segments_components(segs.drop_last()) + segment_components(segs.last())
    }
}

pub open spec fn spec_is_absolute(s: Seq<char>) -> bool {
    s.len() > 0 && s[0] == '/'
}

/// The components of the path `s`: an optional root, an optional leading `.` (only for a
/// relative path that starts with `./` or is `.`), then `..` and normal components.
pub open spec fn spec_components(s: Seq<char>) -> Seq<PathComponent> {
    let segs = split_slash(s);
    let prefix = if spec_is_absolute(s) {
        seq![PathComponent::RootDir]
    } else if is_dot(segs[0]) {
        seq![PathComponent::CurDir]
    } else {
        Seq::empty()
    };
    prefix + segments_components(segs)
}

pub proof fn lemma_components_view_push(v: Seq<Component>, c: Component)
    ensures
        components_view(v.push(c)) == components_view(v).push(c@),
{
    assert(components_view(v.push(c)) =~= components_view(v).push(c@));
}

fn segment_component(seg: &Vec<char>) -> (r: Option<Component>)
    ensures
        segment_components(seg@) == (match r {
            Some(c) => seq![c@],
            None => Seq::<PathComponent>::empty(),
        }),
{
    if seg.len() == 0 || (seg.len() == 1 && seg[0] == '.') {
        None
    } else if seg.len() == 2 && seg[0] == '.' && seg[1] == '.' {
        Some(Component::ParentDir)
    } else {
        Some(Component::Normal(chars_to_string(seg.as_slice())))
    }
}

/// Appends the components of a completed piece; a leading `.` piece of a relative path
/// becomes the current-directory component.
fn finish_segment(out: &mut Vec<Component>, cur: &Vec<char>, first_of_relative: bool)
    ensures
        components_view(final(out)@) == components_view(old(out)@) + (if first_of_relative && is_dot(
            cur@,
        ) {
            seq![PathComponent::CurDir]
        } else {
            Seq::<PathComponent>::empty()
        }) + segment_components(cur@),
{
    let ghost prev_out = out@;
    if first_of_relative && cur.len() == 1 && cur[0] == '.' {
        proof {
            lemma_components_view_push(out@, Component::CurDir);
        }
        out.push(Component::CurDir);
    }
    let ghost mid_out = out@;
    let c = segment_component(cur);
    match c {
        Some(c) => {
            proof {
                lemma_components_view_push(out@, c);
            }
            out.push(c);
        },
        None => {},
    }
    proof {
        assert(components_view(out@) =~= components_view(mid_out) + segment_components(cur@));
    }
}

pub open spec fn components_prefix(s: Seq<char>, split: Seq<Seq<char>>, completed: nat) -> Seq<PathComponent> {
    if spec_is_absolute(s) {
        seq![PathComponent::RootDir]
    } else if completed > 0 && is_dot(split[0]) {
        seq![PathComponent::CurDir]
    } else {
        Seq::empty()
    }
}

/// The components of `path`.
pub fn components(path: &str) -> (r: Vec<Component>)
    ensures
        components_view(r@) == spec_components(path@),
{
    let chars = str_chars(path);
    let n = chars.len();
    let absolute = n > 0 && chars[0] == '/';
    let mut out: Vec<Component> = Vec::new();
    if absolute {
        out.push(Component::RootDir);
    }
    let mut cur: Vec<char> = Vec::new();
    let mut completed: usize = 0;
    let mut i: usize = 0;
    let ghost s = chars@;
    proof {
        assert(s.take(0) =~= Seq::<char>::empty());
        assert(components_view(out@) =~= (if absolute { seq![PathComponent::RootDir] } else { Seq::empty() }));
    }
    while i < n
        invariant
            s == chars@,
            s == path@,
            n == s.len(),
            absolute == spec_is_absolute(s),
            i <= n,
            completed <= i,
            ({
                let split = split_slash(s.take(i as int));
                &&& split.len() == completed + 1
                &&& cur@ == split.last()
                &&& components_view(out@) == components_prefix(s, split, completed as nat)
                    + segments_components(split.drop_last())
            }),
        decreases n - i,
    {
        let ghost split = split_slash(s.take(i as int));
        let ghost prev_out = out@;
        proof {
            lemma_split_slash_len(s.take(i as int));
        }
        let t_char = chars[i];
        let ghost t = s.take(i as int + 1);
        proof {
            assert(t.drop_last() =~= s.take(i as int));
            assert(t.last() == t_char);
        }
        if t_char == '/' {
            finish_segment(&mut out, &cur, completed == 0 && !absolute);
            proof {
                let nsplit = split_slash(t);
                assert(nsplit == split.push(Seq::empty()));
                assert(nsplit.drop_last() =~= split);
                assert(nsplit[0] == split[0]);
                assert(segments_components(split) == segments_components(split.drop_last()) + segment_components(split.last()));
                if completed == 0 {
                    assert(split[0] == split.last());
                    assert(segments_components(split.drop_last()) =~= Seq::<PathComponent>::empty());
                }
                assert(components_view(out@) =~= components_prefix(s, nsplit, (completed + 1) as nat) + segments_components(nsplit.drop_last()));
            }
            cur = Vec::new();
            completed = completed + 1;
        } else {
            cur.push(t_char);
            proof {
                let nsplit = split_slash(t);
                assert(nsplit == split.update(split.len() - 1, split.last().push(t.last())));
                assert(nsplit.drop_last() =~= split.drop_last());
                if completed > 0 {
                    assert(nsplit[0] == split[0]);
                }
                assert(cur@ =~= nsplit.last());
            }
        }
        i = i + 1;
    }
    let ghost split = split_slash(s);
    proof {
        assert(s.take(n as int) =~= s);
        lemma_split_slash_len(s);
    }
    finish_segment(&mut out, &cur, completed == 0 && !absolute);
    proof {
        assert(segments_components(split) == segments_components(split.drop_last()) + segment_components(split.last()));
        if completed == 0 {
            assert(split[0] == split.last());
            assert(segments_components(split.drop_last()) =~= Seq::<PathComponent>::empty());
        }
        assert(components_view(out@) =~= spec_components(s));
    }
    out
}

/// The state of a path buffer: whether it is rooted, and its parts in order.
pub type PathState = (bool, Seq<Seq<char>>);

#[derive(Clone, Copy, PartialEq, Eq, Structural)]
enum FoldMode {
    /// `..` removes the last part, if any (`normalize`, `normalize_with`).
    Collapse,
    /// `..` removes the last part (a kept `..` too), or is kept when there is none
    /// (`normalize_relative`).
    KeepLeadingParent,
}

pub open spec fn pop_part(parts: Seq<Seq<char>>) -> Seq<Seq<char>> {
    if parts.len() > 0 {
        parts.drop_last()
    } else {
        parts
    }
}

/// One step of `normalize`: the root resets the buffer, `.` is skipped, `..` pops.
pub open spec fn normalize_step(st: PathState, c: PathComponent) -> PathState {
    match c {
        PathComponent::RootDir => (true, Seq::empty()),
        PathComponent::CurDir => st,
        PathComponent::ParentDir => (st.0, pop_part(st.1)),
        PathComponent::Normal(n) => (st.0, st.1.push(n)),
    }
}

/// One step of `normalize_relative`: like [`normalize_step`], but a `..` with no part to pop
/// is kept (a kept `..` is itself popped by the next `..`).
pub open spec fn relative_step(st: PathState, c: PathComponent) -> PathState {
    match c {
        PathComponent::ParentDir => if st.1.len() > 0 {
            (st.0, st.1.drop_last())
        } else {
            (st.0, st.1.push(seq!['.', '.']))
        },
        _ => normalize_step(st, c),
    }
}

pub open spec fn normalize_fold(st: PathState, cs: Seq<PathComponent>) -> PathState
    decreases cs.len(),
{
    if cs.len() == 0 {
        st
    } else {
        normalize_step(normalize_fold(st, cs.drop_last()), cs.last())
    }
}

pub open spec fn relative_fold(st: PathState, cs: Seq<PathComponent>) -> PathState
    decreases cs.len(),
{
    if cs.len() == 0 {
        st
    } else {
        relative_step(relative_fold(st, cs.drop_last()), cs.last())
    }
}

spec fn mode_fold(mode: FoldMode, st: PathState, cs: Seq<PathComponent>) -> PathState {
    match mode {
        FoldMode::Collapse => normalize_fold(st, cs),
        FoldMode::KeepLeadingParent => relative_fold(st, cs),
    }
}

pub open spec fn empty_state() -> PathState {
    (false, Seq::empty())
}

/// The parts joined with `/`.
pub open spec fn join_parts(parts: Seq<Seq<char>>) -> Seq<char>
    decreases parts.len(),
{
    if parts.len() == 0 {
        Seq::empty()
    } else if parts.len() == 1 {
        parts[0]
    } else {
        join_parts(parts.drop_last()) + seq!['/'] + parts.last()
    }
}

/// The text of a path buffer.
pub open spec fn render(st: PathState) -> Seq<char> {
    (if st.0 {
        seq!['/']
    } else {
        Seq::empty()
    }) + join_parts(st.1)
}

/// `s` with `.` dropped and `..` collapsed; a `..` above the root or above the start of a
/// relative path is dropped.
pub open spec fn spec_normalize(s: Seq<char>) -> Seq<char> {
    render(normalize_fold(empty_state(), spec_components(s)))
}

/// Like [`spec_normalize`], but a `..` with nothing before it to remove is kept; the next
/// `..` removes it in turn, so `../../foo` becomes `foo` and `foo/../..` becomes `..`.
pub open spec fn spec_normalize_relative(s: Seq<char>) -> Seq<char> {
    render(relative_fold(empty_state(), spec_components(s)))
}

/// `s` is in the form [`spec_normalize_relative`] gives back: no `.`, a `..` only as the first
/// component, no repeated or trailing separator.
pub open spec fn spec_is_normalized(s: Seq<char>) -> bool {
    spec_normalize_relative(s) == s
}

/// The buffer that a normalized `base` stands for.
pub open spec fn path_state(base: Seq<char>) -> PathState {
    relative_fold(empty_state(), spec_components(base))
}

/// `subpath` joined onto `base`: an empty or rooted `subpath` is returned as is; otherwise its
/// `.` components are skipped, `..` pops the last part, and normal components are appended.
pub open spec fn spec_normalize_with(base: Seq<char>, subpath: Seq<char>) -> Seq<char> {
    let sc = spec_components(subpath);
    if sc.len() == 0 || sc[0] == PathComponent::RootDir {
        subpath
    } else {
        render(normalize_fold(path_state(base), sc))
    }
}

pub open spec fn parts_view(v: Seq<Vec<char>>) -> Seq<Seq<char>> {
    v.map_values(|p: Vec<char>| p@)
}

proof fn lemma_parts_view_push(v: Seq<Vec<char>>, p: Vec<char>)
    ensures
        parts_view(v.push(p)) == parts_view(v).push(p@),
{
    assert(parts_view(v.push(p)) =~= parts_view(v).push(p@));
}

proof fn lemma_parts_view_drop_last(v: Seq<Vec<char>>)
    requires
        v.len() > 0,
    ensures
        parts_view(v.drop_last()) == parts_view(v).drop_last(),
{
    assert(parts_view(v.drop_last()) =~= parts_view(v).drop_last());
}

/// Applies `comps` to the buffer `(absolute, parts)`.
fn fold_components(
    mode: FoldMode,
    absolute: &mut bool,
    parts: &mut Vec<Vec<char>>,
    comps: &Vec<Component>,
)
    ensures
        (*final(absolute), parts_view(final(parts)@)) == mode_fold(
            mode,
            (*old(absolute), parts_view(old(parts)@)),
            components_view(comps@),
        ),
{
    let ghost init: PathState = (*absolute, parts_view(parts@));
    let ghost cs = components_view(comps@);
    let mut i: usize = 0;
    proof {
        assert(cs.take(0) =~= Seq::<PathComponent>::empty());
    }
    while i < comps.len()
        invariant
            i <= comps.len(),
            cs == components_view(comps@),
            (*absolute, parts_view(parts@)) == mode_fold(mode, init, cs.take(i as int)),
        decreases comps.len() - i,
    {
        let ghost st: PathState = (*absolute, parts_view(parts@));
        proof {
            assert(cs.take(i as int + 1).drop_last() =~= cs.take(i as int));
            assert(cs.take(i as int + 1).last() == comps@[i as int]@);
        }
        match &comps[i] {
            Component::RootDir => {
                *absolute = true;
                *parts = Vec::new();
                proof {
                    assert(parts_view(parts@) =~= Seq::<Seq<char>>::empty());
                }
            },
            Component::CurDir => {},
            Component::ParentDir => {
                let keep = mode == FoldMode::KeepLeadingParent;
                if parts.len() > 0 {
                    proof {
                        lemma_parts_view_drop_last(parts@);
                    }
                    parts.pop();
                } else if keep {
                    let dd: Vec<char> = vec!['.', '.'];
                    proof {
                        lemma_parts_view_push(parts@, dd);
                        assert(dd@ =~= seq!['.', '.']);
                    }
                    parts.push(dd);
                }
            },
            Component::Normal(n) => {
                let p = str_chars(n.as_str());
                proof {
                    lemma_parts_view_push(parts@, p);
                }
                parts.push(p);
            },
        }
        i = i + 1;
    }
    proof {
        assert(cs.take(comps.len() as int) =~= cs);
    }
}

/// The text of the buffer `(absolute, parts)`.
fn render_parts(absolute: bool, parts: &Vec<Vec<char>>) -> (r: Vec<char>)
    ensures
        r@ == render((absolute, parts_view(parts@))),
{
    let mut out: Vec<char> = Vec::new();
    if absolute {
        out.push('/');
    }
    let ghost head = out@;
    let ghost pv = parts_view(parts@);
    let mut i: usize = 0;
    proof {
        assert(pv.take(0) =~= Seq::<Seq<char>>::empty());
        assert(out@ =~= head + join_parts(pv.take(0)));
    }
    while i < parts.len()
        invariant
            i <= parts.len(),
            pv == parts_view(parts@),
            head == (if absolute { seq!['/'] } else { Seq::<char>::empty() }),
            out@ == head + join_parts(pv.take(i as int)),
        decreases parts.len() - i,
    {
        let ghost before = out@;
        if i > 0 {
            out.push('/');
        }
        let part = &parts[i];
        let mut j: usize = 0;
        let ghost mid = out@;
        while j < part.len()
            invariant
                j <= part.len(),
                out@ == mid + part@.take(j as int),
            decreases part.len() - j,
        {
            out.push(part[j]);
            proof {
                assert(part@.take(j as int + 1) =~= part@.take(j as int).push(part@[j as int]));
            }
            j = j + 1;
        }
        proof {
            assert(part@.take(part.len() as int) =~= part@);
            let t = pv.take(i as int + 1);
            assert(t.drop_last() =~= pv.take(i as int));
            assert(t.last() == part@);
            if i == 0 {
                assert(t.len() == 1);
                assert(out@ =~= head + join_parts(t));
            } else {
                assert(out@ =~= head + join_parts(t));
            }
        }
        i = i + 1;
    }
    proof {
        assert(pv.take(parts.len() as int) =~= pv);
    }
    out
}

/// Normalize `path` without performing I/O: `.` components are dropped and `..` removes the
/// preceding component. Links are not resolved.
pub fn normalize(path: &str) -> (r: String)
    ensures
        r@ == spec_normalize(path@),
{
    let comps = components(path);
    let mut absolute = false;
    let mut parts: Vec<Vec<char>> = Vec::new();
    proof {
        assert(parts_view(parts@) =~= Seq::<Seq<char>>::empty());
    }
    fold_components(FoldMode::Collapse, &mut absolute, &mut parts, &comps);
    let out = render_parts(absolute, &parts);
    chars_to_string(out.as_slice())
}

/// Like [`normalize`], but a `..` with nothing before it to remove is kept (see
/// [`spec_normalize_relative`]).
pub fn normalize_relative(path: &str) -> (r: String)
    ensures
        r@ == spec_normalize_relative(path@),
{
    let comps = components(path);
    let mut absolute = false;
    let mut parts: Vec<Vec<char>> = Vec::new();
    proof {
        assert(parts_view(parts@) =~= Seq::<Seq<char>>::empty());
    }
    fold_components(FoldMode::KeepLeadingParent, &mut absolute, &mut parts, &comps);
    let out = render_parts(absolute, &parts);
    chars_to_string(out.as_slice())
}

/// Whether `path` is normalized (see [`spec_is_normalized`]).
pub fn is_normalized(path: &str) -> (r: bool)
    ensures
        r == spec_is_normalized(path@),
{
    let n = normalize_relative(path);
    let a = str_chars(n.as_str());
    let b = str_chars(path);
    chars_eq(&a, &b)
}

/// Whether two character vectors are equal.
pub fn chars_eq(a: &Vec<char>, b: &Vec<char>) -> (r: bool)
    ensures
        r == (a@ == b@),
{
    if a.len() != b.len() {
        return false;
    }
    let mut i: usize = 0;
    while i < a.len()
        invariant
            i <= a.len(),
            a.len() == b.len(),
            forall|k: int| 0 <= k < i ==> a@[k] == b@[k],
        decreases a.len() - i,
    {
        if a[i] != b[i] {
            return false;
        }
        i = i + 1;
    }
    proof {
        assert(a@ =~= b@);
    }
    true
}

/// Join `subpath` onto the normalized path `base` without performing I/O: `.` components of
/// `subpath` are skipped and `..` removes the last component. An empty or rooted `subpath` is
/// returned unchanged.
pub fn normalize_with(base: &str, subpath: &str) -> (r: String)
    requires
        spec_is_normalized(base@),
    ensures
        r@ == spec_normalize_with(base@, subpath@),
{
    let sub = components(subpath);
    if sub.len() == 0 {
        return subpath.to_owned();
    }
    match &sub[0] {
        Component::RootDir => {
            return subpath.to_owned();
        },
        _ => {},
    }
    let base_comps = components(base);
    let mut absolute = false;
    let mut parts: Vec<Vec<char>> = Vec::new();
    proof {
        assert(parts_view(parts@) =~= Seq::<Seq<char>>::empty());
    }
    fold_components(FoldMode::KeepLeadingParent, &mut absolute, &mut parts, &base_comps);
    fold_components(FoldMode::Collapse, &mut absolute, &mut parts, &sub);
    let out = render_parts(absolute, &parts);
    chars_to_string(out.as_slice())
}

/// The characters of `node_modules`.
pub open spec fn node_modules_chars() -> Seq<char> {
    seq!['n', 'o', 'd', 'e', '_', 'm', 'o', 'd', 'u', 'l', 'e', 's']
}

/// The code of `c` after ASCII lower-casing.
pub open spec fn ascii_lower_code(c: char) -> u32 {
    if 'A' <= c && c <= 'Z' {
        (c as u32 + 32) as u32
    } else {
        c as u32
    }
}

/// `a` and `b` are equal when ASCII letters are compared without regard to case.
pub open spec fn eq_ignore_ascii_case(a: Seq<char>, b: Seq<char>) -> bool {
    a.len() == b.len() && forall|k: int| 0 <= k < a.len() ==> ascii_lower_code(#[trigger] a[k])
        == ascii_lower_code(b[k])
}

fn lower_code(c: char) -> (r: u32)
    ensures
        r == ascii_lower_code(c),
{
    if c >= 'A' && c <= 'Z' {
        (c as u32) + 32
    } else {
        c as u32
    }
}

/// Whether `a` equals `b` when ASCII letters are compared without regard to case.
pub fn chars_eq_ignore_ascii_case(a: &Vec<char>, b: &Vec<char>) -> (r: bool)
    ensures
        r == eq_ignore_ascii_case(a@, b@),
{
    if a.len() != b.len() {
        return false;
    }
    let mut i: usize = 0;
    while i < a.len()
        invariant
            i <= a.len(),
            a.len() == b.len(),
            forall|k: int| 0 <= k < i ==> ascii_lower_code(#[trigger] a@[k]) == ascii_lower_code(b@[k]),
        decreases a.len() - i,
    {
        if lower_code(a[i]) != lower_code(b[i]) {
            return false;
        }
        i = i + 1;
    }
    true
}

pub open spec fn is_separator(c: char) -> bool {
    c == '/' || c == '\\'
}

/// `s` split at every `/` or `\` (the segments between separators, empty ones included).
pub open spec fn split_separators(s: Seq<char>) -> Seq<Seq<char>>
    decreases s.len(),
{
    if s.len() == 0 {
        seq![Seq::empty()]
    } else {
        let p = split_separators(s.drop_last());
        if is_separator(s.last()) {
            p.push(Seq::empty())
        } else {
            p.update(p.len() - 1, p.last().push(s.last()))
        }
    }
}

proof fn lemma_split_separators_len(s: Seq<char>)
    ensures
        split_separators(s).len() >= 1,
    decreases s.len(),
{
    if s.len() > 0 {
        lemma_split_separators_len(s.drop_last());
    }
}

/// The value of a hexadecimal digit.
pub open spec fn hex_value(c: char) -> Option<u32> {
    if '0' <= c && c <= '9' {
        Some((c as u32 - '0' as u32) as u32)
    } else if 'a' <= c && c <= 'f' {
        Some((c as u32 - 'a' as u32 + 10) as u32)
    } else if 'A' <= c && c <= 'F' {
        Some((c as u32 - 'A' as u32 + 10) as u32)
    } else {
        None
    }
}

pub open spec fn lower_unit(v: u32) -> u32 {
    if 65 <= v && v <= 90 {
        (v + 32) as u32
    } else {
        v
    }
}

/// The units of `s` with each `%XX` escape decoded, ASCII letters in lower case.
pub open spec fn decoded_units(s: Seq<char>) -> Seq<u32>
    decreases s.len(),
{
    if s.len() == 0 {
        Seq::empty()
    } else if s.len() >= 3 && s[0] == '%' && hex_value(s[1]) is Some && hex_value(s[2]) is Some {
        seq![lower_unit((hex_value(s[1])->0 * 16 + hex_value(s[2])->0) as u32)] + decoded_units(s.skip(3))
    } else {
        seq![ascii_lower_code(s[0])] + decoded_units(s.skip(1))
    }
}

pub open spec fn dot_units() -> Seq<u32> {
    seq![46u32]
}

pub open spec fn dot_dot_units() -> Seq<u32> {
    seq![46u32, 46u32]
}

pub open spec fn node_modules_units() -> Seq<u32> {
    seq![110u32, 111u32, 100u32, 101u32, 95u32, 109u32, 111u32, 100u32, 117u32, 108u32, 101u32, 115u32]
}

/// A segment that disqualifies an `exports` target at position `index` (`last` for the last
/// segment): `..` or `node_modules` anywhere, `.` after the first segment, and an empty segment
/// between two separators after the first; ASCII case-insensitive, percent-encoded forms
/// included.
pub open spec fn is_invalid_target_segment(seg: Seq<char>, index: int, last: bool) -> bool {
    let d = decoded_units(seg);
    ||| d == dot_dot_units()
    ||| d == node_modules_units()
    ||| (index > 0 && d == dot_units())
    ||| (index > 0 && !last && seg.len() == 0)
}

/// Defined in ESM PACKAGE_TARGET_RESOLVE: the target, split on `/` or `\`, contains a `..`
/// or `node_modules` segment, or a `.` or empty segment after the first one (a trailing
/// separator is allowed), ASCII case-insensitive and including percent-encoded forms.
pub open spec fn spec_is_invalid_exports_target(s: Seq<char>) -> bool {
    let segs = split_separators(s);
    exists|k: int| 0 <= k < segs.len() && is_invalid_target_segment(#[trigger] segs[k], k, k == segs.len() - 1)
}

fn hex_digit(c: char) -> (r: Option<u32>)
    ensures
        r == hex_value(c),
{
    if c >= '0' && c <= '9' {
        Some((c as u32) - ('0' as u32))
    } else if c >= 'a' && c <= 'f' {
        Some((c as u32) - ('a' as u32) + 10)
    } else if c >= 'A' && c <= 'F' {
        Some((c as u32) - ('A' as u32) + 10)
    } else {
        None
    }
}

/// See [`decoded_units`].
fn decode_units(seg: &Vec<char>) -> (r: Vec<u32>)
    ensures
        r@ == decoded_units(seg@),
{
    let mut out: Vec<u32> = Vec::new();
    let mut i: usize = 0;
    proof {
        assert(seg@.skip(0) =~= seg@);
    }
    while i < seg.len()
        invariant
            i <= seg@.len(),
            decoded_units(seg@) == out@ + decoded_units(seg@.skip(i as int)),
        decreases seg.len() - i,
    {
        let ghost rest = seg@.skip(i as int);
        proof {
            assert(rest[0] == seg@[i as int]);
        }
        if seg.len() - i > 2 && seg[i] == '%' {
            let h1 = hex_digit(seg[i + 1]);
            let h2 = hex_digit(seg[i + 2]);
            proof {
                assert(rest[1] == seg@[i + 1]);
                assert(rest[2] == seg@[i + 2]);
            }
            if h1.is_some() && h2.is_some() {
                let v = h1.unwrap() * 16 + h2.unwrap();
                let unit = if v >= 65 && v <= 90 { v + 32 } else { v };
                out.push(unit);
                proof {
                    assert(rest.skip(3) =~= seg@.skip(i as int + 3));
                    assert(decoded_units(rest) == seq![unit] + decoded_units(rest.skip(3)));
                }
                i = i + 3;
                continue;
            }
        }
        out.push(lower_code(seg[i]));
        proof {
            assert(rest.skip(1) =~= seg@.skip(i as int + 1));
            assert(decoded_units(rest) == seq![ascii_lower_code(seg@[i as int])] + decoded_units(rest.skip(1)));
        }
        i = i + 1;
    }
    proof {
        assert(seg@.skip(i as int) =~= Seq::<char>::empty());
    }
    out
}

fn units_eq(a: &Vec<u32>, c: &[u32]) -> (r: bool)
    ensures
        r == (a@ == c@),
{
    if a.len() != c.len() {
        return false;
    }
    let mut i: usize = 0;
    while i < a.len()
        invariant
            i <= a@.len(),
            a@.len() == c@.len(),
            forall|k: int| 0 <= k < i ==> a@[k] == c@[k],
        decreases a.len() - i,
    {
        if a[i] != c[i] {
            return false;
        }
        i = i + 1;
    }
    assert(a@ =~= c@);
    true
}

fn invalid_segment(seg: &Vec<char>, index: usize, last: bool) -> (r: bool)
    ensures
        r == is_invalid_target_segment(seg@, index as int, last),
{
    let d = decode_units(seg);
    let dot = [46u32];
    let dot_dot = [46u32, 46u32];
    let nm = [110u32, 111u32, 100u32, 101u32, 95u32, 109u32, 111u32, 100u32, 117u32, 108u32, 101u32, 115u32];
    proof {
        assert(dot@ =~= dot_units());
        assert(dot_dot@ =~= dot_dot_units());
        assert(nm@ =~= node_modules_units());
    }
    units_eq(&d, &dot_dot) || units_eq(&d, &nm) || (index > 0 && units_eq(&d, &dot)) || (index > 0 && !last
        && seg.len() == 0)
}

/// See [`spec_is_invalid_exports_target`].
pub fn is_invalid_exports_target(path: &str) -> (r: bool)
    ensures
        r == spec_is_invalid_exports_target(path@),
{
    let chars = str_chars(path);
    let mut seg: Vec<char> = Vec::new();
    let mut k: usize = 0;
    let mut bad = false;
    let ghost mut done: Seq<Seq<char>> = Seq::empty();
    let mut i: usize = 0;
    proof {
        assert(chars@.take(0) =~= Seq::<char>::empty());
        assert(split_separators(Seq::<char>::empty()) =~= done.push(seg@));
    }
    while i < chars.len()
        invariant
            i <= chars@.len(),
            chars@ == path@,
            split_separators(chars@.take(i as int)) == done.push(seg@),
            done.len() == k,
            k <= i,
            bad == (exists|j: int| 0 <= j < k && is_invalid_target_segment(#[trigger] done[j], j, false)),
        decreases chars.len() - i,
    {
        let ghost prefix = chars@.take(i as int + 1);
        proof {
            assert(prefix.drop_last() =~= chars@.take(i as int));
            assert(prefix.last() == chars@[i as int]);
        }
        let c = chars[i];
        if c == '/' || c == '\\' {
            let b = invalid_segment(&seg, k, false);
            proof {
                let nd = done.push(seg@);
                if b {
                    assert(nd[k as int] == seg@);
                    assert(is_invalid_target_segment(nd[k as int], k as int, false));
                }
                assert forall|j: int| 0 <= j < k implies nd[j] == done[j] by {}
                done = nd;
            }
            bad = bad || b;
            seg = Vec::new();
            proof {
                assert(split_separators(prefix) =~= done.push(seg@));
            }
            k = k + 1;
        } else {
            let ghost old_seg = seg@;
            seg.push(c);
            proof {
                assert(split_separators(prefix) =~= done.push(seg@));
            }
        }
        i = i + 1;
    }
    proof {
        assert(chars@.take(chars@.len() as int) =~= chars@);
    }
    let b = invalid_segment(&seg, k, true);
    proof {
        let segs = done.push(seg@);
        assert(segs == split_separators(path@));
        if bad {
            let j = choose|j: int| 0 <= j < k && is_invalid_target_segment(#[trigger] done[j], j, false);
            assert(segs[j] == done[j]);
            assert(j != segs.len() - 1);
        }
        if b {
            assert(segs[k as int] == seg@);
        }
        if spec_is_invalid_exports_target(path@) {
            let j = choose|j: int| 0 <= j < segs.len() && is_invalid_target_segment(#[trigger] segs[j], j, j == segs.len() - 1);
            if j < k {
                assert(segs[j] == done[j]);
            }
        }
    }
    bad || b
}

/// Whether `path` starts at the root.
pub fn is_absolute(path: &str) -> (r: bool)
    ensures
        r == spec_is_absolute(path@),
{
    let chars = str_chars(path);
    chars.len() > 0 && chars[0] == '/'
}

/// The last component of `path`, when it is a normal one.
pub open spec fn spec_file_name(s: Seq<char>) -> Option<Seq<char>> {
    let cs = spec_components(s);
    if cs.len() > 0 && cs.last() is Normal {
        Some(cs.last()->Normal_0)
    } else {
        None
    }
}

/// The last component of `path`, when it is a normal one.
pub fn file_name(path: &str) -> (r: Option<String>)
    ensures
        r matches Some(n) ==> spec_file_name(path@) == Some(n@),
        r is None ==> spec_file_name(path@) is None,
{
    let comps = components(path);
    let ghost cs = components_view(comps@);
    if comps.len() == 0 {
        return None;
    }
    proof {
        assert(cs.last() == comps@.last()@);
    }
    match &comps[comps.len() - 1] {
        Component::Normal(n) => Some(n.clone()),
        _ => None,
    }
}

/// One step of reading components back into parts, keeping `.` and `..` as written.
pub open spec fn literal_step(st: PathState, c: PathComponent) -> PathState {
    match c {
        PathComponent::RootDir => (true, Seq::empty()),
        PathComponent::CurDir => (st.0, st.1.push(seq!['.'])),
        PathComponent::ParentDir => (st.0, st.1.push(seq!['.', '.'])),
        PathComponent::Normal(n) => (st.0, st.1.push(n)),
    }
}

pub open spec fn literal_fold(cs: Seq<PathComponent>) -> PathState
    decreases cs.len(),
{
    if cs.len() == 0 {
        empty_state()
    } else {
        literal_step(literal_fold(cs.drop_last()), cs.last())
    }
}

/// The parent of `s`: `None` for an empty path and for the root, otherwise the path of all
/// components but the last.
pub open spec fn spec_parent(s: Seq<char>) -> Option<Seq<char>> {
    let cs = spec_components(s);
    if cs.len() == 0 || cs.last() == PathComponent::RootDir {
        None
    } else {
        Some(render(literal_fold(cs.drop_last())))
    }
}

/// The parent of `path` (see [`spec_parent`]).
pub fn parent(path: &str) -> (r: Option<String>)
    ensures
        r matches Some(p) ==> spec_parent(path@) == Some(p@),
        r is None ==> spec_parent(path@) is None,
{
    let comps = components(path);
    let ghost cs = components_view(comps@);
    if comps.len() == 0 {
        return None;
    }
    proof {
        assert(cs.last() == comps@.last()@);
    }
    match &comps[comps.len() - 1] {
        Component::RootDir => {
            return None;
        },
        _ => {},
    }
    let mut absolute = false;
    let mut parts: Vec<Vec<char>> = Vec::new();
    let ghost pre = cs.drop_last();
    let mut i: usize = 0;
    proof {
        assert(parts_view(parts@) =~= Seq::<Seq<char>>::empty());
        assert(pre.take(0) =~= Seq::<PathComponent>::empty());
    }
    while i + 1 < comps.len()
        invariant
            comps.len() >= 1,
            i + 1 <= comps.len(),
            cs == components_view(comps@),
            pre == cs.drop_last(),
            (absolute, parts_view(parts@)) == literal_fold(pre.take(i as int)),
        decreases comps.len() - i,
    {
        proof {
            assert(pre.take(i as int + 1).drop_last() =~= pre.take(i as int));
            assert(pre.take(i as int + 1).last() == comps@[i as int]@);
        }
        match &comps[i] {
            Component::RootDir => {
                absolute = true;
                parts = Vec::new();
                proof {
                    assert(parts_view(parts@) =~= Seq::<Seq<char>>::empty());
                }
            },
            Component::CurDir => {
                let d: Vec<char> = vec!['.'];
                proof {
                    lemma_parts_view_push(parts@, d);
                    assert(d@ =~= seq!['.']);
                }
                parts.push(d);
            },
            Component::ParentDir => {
                let d: Vec<char> = vec!['.', '.'];
                proof {
                    lemma_parts_view_push(parts@, d);
                    assert(d@ =~= seq!['.', '.']);
                }
                parts.push(d);
            },
            Component::Normal(n) => {
                let p = str_chars(n.as_str());
                proof {
                    lemma_parts_view_push(parts@, p);
                }
                parts.push(p);
            },
        }
        i = i + 1;
    }
    proof {
        assert(pre.take(i as int) =~= pre);
    }
    let out = render_parts(absolute, &parts);
    Some(chars_to_string(out.as_slice()))
}

/// `subpath` joined onto `base` (see [`spec_normalize_with`]); a `base` that is not normalized
/// is normalized first.
pub open spec fn spec_join(base: Seq<char>, subpath: Seq<char>) -> Seq<char> {
    spec_normalize_with(
        if spec_is_normalized(base) {
            base
        } else {
            spec_normalize_relative(base)
        },
        subpath,
    )
}


/// `target` appended to `base` as a path buffer's `push` does it: a rooted `target` replaces
/// `base`; otherwise a separator goes between them unless `base` is empty or already ends with
/// one.
pub open spec fn spec_push(base: Seq<char>, target: Seq<char>) -> Seq<char> {
    if spec_is_absolute(target) {
        target
    } else if base.len() > 0 && base.last() != '/' {
        base + seq!['/'] + target
    } else {
        base + target
    }
}

/// `target` appended to `base` (see [`spec_push`]).
pub fn push_path(base: &str, target: &str) -> (r: String)
    ensures
        r@ == spec_push(base@, target@),
{
    if is_absolute(target) {
        return target.to_owned();
    }
    let chars = str_chars(base);
    if chars.len() > 0 && chars[chars.len() - 1] != '/' {
        proof {
            assert(chars@.last() == chars@[chars@.len() - 1]);
        }
        let with_separator = base.to_owned().concat("/");
        proof {
            reveal_strlit("/");
            assert(with_separator@ =~= base@ + seq!['/']);
        }
        with_separator.concat(target)
    } else {
        base.to_owned().concat(target)
    }
}

pub fn component_eq(a: &Component, b: &Component) -> (r: bool)
    ensures
        r == (a@ == b@),
{
    match (a, b) {
        (Component::RootDir, Component::RootDir) => true,
        (Component::CurDir, Component::CurDir) => true,
        (Component::ParentDir, Component::ParentDir) => true,
        (Component::Normal(x), Component::Normal(y)) => {
            let xs = str_chars(x.as_str());
            let ys = str_chars(y.as_str());
            chars_eq(&xs, &ys)
        },
        _ => false,
    }
}

/// Whether `a` and `b` are the same path: they have the same components.
pub fn same_path(a: &str, b: &str) -> (r: bool)
    ensures
        r == (spec_components(a@) == spec_components(b@)),
{
    let ca = components(a);
    let cb = components(b);
    let ghost va = components_view(ca@);
    let ghost vb = components_view(cb@);
    proof {
        assert(va.len() == ca@.len());
        assert(vb.len() == cb@.len());
    }
    if ca.len() != cb.len() {
        return false;
    }
    let mut i: usize = 0;
    while i < ca.len()
        invariant
            i <= ca.len(),
            ca.len() == cb.len(),
            va == components_view(ca@),
            vb == components_view(cb@),
            va == spec_components(a@),
            vb == spec_components(b@),
            va.len() == ca.len(),
            vb.len() == cb.len(),
            forall|k: int| 0 <= k < i ==> va[k] == vb[k],
        decreases ca.len() - i,
    {
        if !component_eq(&ca[i], &cb[i]) {
            proof {
                assert(va[i as int] == ca@[i as int]@);
                assert(vb[i as int] == cb@[i as int]@);
                assert(va[i as int] != vb[i as int]);
            }
            return false;
        }
        i = i + 1;
    }
    proof {
        assert(va =~= vb);
    }
    true
}

/// Path normalization on path text.
pub trait PathUtil {
    /// Normalize this path without performing I/O.
    ///
    /// All redundant separator and up-level references are collapsed.
    ///
    /// However, this does not resolve links.
    fn normalize(&self) -> String;

    /// Like `normalize`, but don't require the path to be absolute.
    fn normalize_relative(&self) -> String;

    /// Normalize with subpath assuming this path is normalized without performing I/O.
    fn normalize_with(&self, subpath: &str) -> String;

    /// Defined in ESM PACKAGE_TARGET_RESOLVE
    /// If target split on "/" or "\" contains any "", ".", "..", or "node_modules" segments
    /// after the first segment, case insensitive and including percent-encoded variants (see
    /// [`spec_is_invalid_exports_target`]).
    fn is_invalid_exports_target(&self) -> bool;
}

impl PathUtil for str {
    fn normalize(&self) -> (r: String)
        ensures
            r@ == spec_normalize(self@),
    {
        normalize(self)
    }

    fn normalize_relative(&self) -> (r: String)
        ensures
            r@ == spec_normalize_relative(self@),
    {
        normalize_relative(self)
    }

    fn normalize_with(&self, subpath: &str) -> (r: String)
        ensures
            r@ == spec_join(self@, subpath@),
    {
        if is_normalized(self) {
            normalize_with(self, subpath)
        } else {
            let base = normalize_relative(self);
            proof {
                crate::path_laws::law_normalize_relative_is_normalized(self@);
            }
            normalize_with(base.as_str(), subpath)
        }
    }

    fn is_invalid_exports_target(&self) -> (r: bool)
        ensures
            r == spec_is_invalid_exports_target(self@),
    {
        is_invalid_exports_target(self)
    }
}

} // verus!
