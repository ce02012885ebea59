//! Laws of paths: the results of normalization are fixed points, and a parent has the
//! components of its child but the last.
use vstd::prelude::*;

use crate::path::{
    empty_state, is_dot, is_dot_dot, join_parts, lemma_split_slash_len, literal_fold, normalize_fold, normalize_step,
    path_state, spec_join,
    relative_fold, relative_step, render, segment_components, segments_components, spec_components,
    spec_is_absolute, spec_is_normalized, spec_normalize, spec_normalize_relative, spec_normalize_with, spec_parent,
    spec_push, split_slash,
    PathComponent, PathState,
};

verus! {

broadcast use vstd::seq::group_seq_axioms;

/// A part of a path buffer as normalization leaves it: non-empty, without a separator, not `.`.
pub open spec fn part_ok(p: Seq<char>) -> bool {
    p.len() > 0 && !p.contains('/') && !is_dot(p)
}

/// A piece between separators that is not empty.
pub open spec fn seg_ok(p: Seq<char>) -> bool {
    p.len() > 0 && !p.contains('/')
}

/// Parts as `normalize_relative` leaves them: every part is ok, and only the first may be `..`.
pub open spec fn parts_wf(parts: Seq<Seq<char>>) -> bool {
    forall|k: int| 0 <= k < parts.len() ==> part_ok(#[trigger] parts[k]) && (k > 0 ==> !is_dot_dot(parts[k]))
}

/// Parts as `normalize` leaves them: every part is ok and none is `..`.
pub open spec fn parts_plain(parts: Seq<Seq<char>>) -> bool {
    forall|k: int| 0 <= k < parts.len() ==> part_ok(#[trigger] parts[k]) && !is_dot_dot(parts[k])
}

pub open spec fn part_component(p: Seq<char>) -> PathComponent {
    if is_dot_dot(p) {
        PathComponent::ParentDir
    } else {
        PathComponent::Normal(p)
    }
}

pub open spec fn parts_components(parts: Seq<Seq<char>>) -> Seq<PathComponent> {
    parts.map_values(|p: Seq<char>| part_component(p))
}

pub open spec fn root_prefix(absolute: bool) -> Seq<PathComponent> {
    if absolute {
        seq![PathComponent::RootDir]
    } else {
        Seq::empty()
    }
}

/// A normal component that `spec_components` produces.
pub open spec fn normal_ok(c: PathComponent) -> bool {
    c is Normal ==> part_ok(c->Normal_0) && !is_dot_dot(c->Normal_0)
}

proof fn lemma_split_no_slash(s: Seq<char>)
    ensures
        forall|k: int| 0 <= k < split_slash(s).len() ==> !(#[trigger] split_slash(s)[k]).contains('/'),
    decreases s.len(),
{
    lemma_split_slash_len(s);
    if s.len() > 0 {
        lemma_split_slash_len(s.drop_last());
        lemma_split_no_slash(s.drop_last());
        let p = split_slash(s.drop_last());
        if s.last() != '/' {
            assert forall|k: int| 0 <= k < split_slash(s).len() implies !(#[trigger] split_slash(s)[k]).contains('/') by {
                if k == p.len() - 1 {
                    let q = p.last().push(s.last());
                    assert(split_slash(s)[k] == q);
                    if q.contains('/') {
                        let j = choose|j: int| 0 <= j < q.len() && q[j] == '/';
                        if j < p.last().len() {
                            assert(p.last()[j] == '/');
                            assert(p.last().contains('/'));
                        }
                    }
                } else {
                    assert(split_slash(s)[k] == p[k]);
                }
            }
        } else {
            assert forall|k: int| 0 <= k < split_slash(s).len() implies !(#[trigger] split_slash(s)[k]).contains('/') by {
                if k < p.len() {
                    assert(split_slash(s)[k] == p[k]);
                } else {
                    assert(split_slash(s)[k] =~= Seq::<char>::empty());
                }
            }
        }
    }
}

proof fn lemma_segments_normal_ok(segs: Seq<Seq<char>>)
    requires
        forall|k: int| 0 <= k < segs.len() ==> !(#[trigger] segs[k]).contains('/'),
    ensures
        forall|k: int| 0 <= k < segments_components(segs).len() ==> normal_ok(#[trigger] segments_components(segs)[k]),
    decreases segs.len(),
{
    if segs.len() > 0 {
        let dl = segs.drop_last();
        assert forall|k: int| 0 <= k < dl.len() implies !(#[trigger] dl[k]).contains('/') by {
            assert(dl[k] == segs[k]);
        }
        lemma_segments_normal_ok(dl);
        let a = segments_components(dl);
        let b = segment_components(segs.last());
        assert(!segs[segs.len() - 1].contains('/'));
        assert forall|k: int| 0 <= k < segments_components(segs).len() implies normal_ok(#[trigger] segments_components(segs)[k]) by {
            if k < a.len() {
                assert(segments_components(segs)[k] == a[k]);
            } else {
                assert(segments_components(segs)[k] == b[k - a.len()]);
            }
        }
    }
}

proof fn lemma_components_normal_ok(s: Seq<char>)
    ensures
        forall|k: int| 0 <= k < spec_components(s).len() ==> normal_ok(#[trigger] spec_components(s)[k]),
{
    let segs = split_slash(s);
    lemma_split_slash_len(s);
    lemma_split_no_slash(s);
    lemma_segments_normal_ok(segs);
    let cs = spec_components(s);
    let sc = segments_components(segs);
    let pre = cs.len() - sc.len();
    assert forall|k: int| 0 <= k < cs.len() implies normal_ok(#[trigger] cs[k]) by {
        if k >= pre {
            assert(cs[k] == sc[k - pre]);
        }
    }
}

proof fn lemma_relative_fold_wf(cs: Seq<PathComponent>)
    requires
        forall|k: int| 0 <= k < cs.len() ==> normal_ok(#[trigger] cs[k]),
    ensures
        parts_wf(relative_fold(empty_state(), cs).1),
    decreases cs.len(),
{
    if cs.len() > 0 {
        let dl = cs.drop_last();
        assert forall|k: int| 0 <= k < dl.len() implies normal_ok(#[trigger] dl[k]) by {
            assert(dl[k] == cs[k]);
        }
        lemma_relative_fold_wf(dl);
        let st = relative_fold(empty_state(), dl);
        let c = cs.last();
        assert(normal_ok(cs[cs.len() - 1]));
        let nst = relative_fold(empty_state(), cs);
        assert(nst == relative_step(st, c));
        let dd = seq!['.', '.'];
        assert(!dd.contains('/')) by {
            if dd.contains('/') {
                let j = choose|j: int| 0 <= j < dd.len() && dd[j] == '/';
                assert(dd[j] == '.');
            }
        }
        assert(part_ok(dd));
        assert forall|k: int| 0 <= k < nst.1.len() implies part_ok(#[trigger] nst.1[k]) && (k > 0 && is_dot_dot(nst.1[k])
            ==> is_dot_dot(nst.1[k - 1])) by {
            match c {
                PathComponent::RootDir => {},
                PathComponent::CurDir => {},
                PathComponent::ParentDir => {
                    if st.1.len() > 0 && !is_dot_dot(st.1.last()) {
                        assert(nst.1[k] == st.1[k]);
                        if k > 0 {
                            assert(nst.1[k - 1] == st.1[k - 1]);
                        }
                    } else if k < st.1.len() {
                        assert(nst.1[k] == st.1[k]);
                        if k > 0 {
                            assert(nst.1[k - 1] == st.1[k - 1]);
                        }
                    } else {
                        assert(nst.1[k] == dd);
                        if k > 0 {
                            assert(nst.1[k - 1] == st.1.last());
                        }
                    }
                },
                PathComponent::Normal(n) => {
                    if k < st.1.len() {
                        assert(nst.1[k] == st.1[k]);
                        if k > 0 {
                            assert(nst.1[k - 1] == st.1[k - 1]);
                        }
                    } else {
                        assert(nst.1[k] == n);
                    }
                },
            }
        }
    }
}

proof fn lemma_normalize_fold_plain(cs: Seq<PathComponent>)
    requires
        forall|k: int| 0 <= k < cs.len() ==> normal_ok(#[trigger] cs[k]),
    ensures
        parts_plain(normalize_fold(empty_state(), cs).1),
    decreases cs.len(),
{
    if cs.len() > 0 {
        let dl = cs.drop_last();
        assert forall|k: int| 0 <= k < dl.len() implies normal_ok(#[trigger] dl[k]) by {
            assert(dl[k] == cs[k]);
        }
        lemma_normalize_fold_plain(dl);
        let st = normalize_fold(empty_state(), dl);
        let c = cs.last();
        assert(normal_ok(cs[cs.len() - 1]));
        let nst = normalize_fold(empty_state(), cs);
        assert(nst == normalize_step(st, c));
        assert forall|k: int| 0 <= k < nst.1.len() implies part_ok(#[trigger] nst.1[k]) && !is_dot_dot(nst.1[k]) by {
            match c {
                PathComponent::RootDir => {},
                PathComponent::CurDir => {},
                PathComponent::ParentDir => {
                    if st.1.len() > 0 {
                        assert(nst.1[k] == st.1[k]);
                    }
                },
                PathComponent::Normal(n) => {
                    if k < st.1.len() {
                        assert(nst.1[k] == st.1[k]);
                    } else {
                        assert(nst.1[k] == n);
                    }
                },
            }
        }
    }
}

proof fn lemma_split_append(a: Seq<char>, b: Seq<char>)
    requires
        !b.contains('/'),
    ensures
        split_slash(a + b) == split_slash(a).update(
            split_slash(a).len() - 1,
            split_slash(a).last() + b,
        ),
    decreases b.len(),
{
    lemma_split_slash_len(a);
    if b.len() == 0 {
        assert(a + b =~= a);
        assert(split_slash(a).last() + b =~= split_slash(a).last());
        assert(split_slash(a).update(split_slash(a).len() - 1, split_slash(a).last() + b) =~= split_slash(a));
    } else {
        let bd = b.drop_last();
        assert(!bd.contains('/')) by {
            if bd.contains('/') {
                let j = choose|j: int| 0 <= j < bd.len() && bd[j] == '/';
                assert(b[j] == '/');
            }
        }
        lemma_split_append(a, bd);
        assert((a + b).drop_last() =~= a + bd);
        assert((a + b).last() == b.last());
        assert(b.last() != '/') by {
            assert(b[b.len() - 1] == b.last());
        }
        let p = split_slash(a + bd);
        lemma_split_slash_len(a + bd);
        assert(split_slash(a + b) == p.update(p.len() - 1, p.last().push(b.last())));
        assert((split_slash(a).last() + bd).push(b.last()) =~= split_slash(a).last() + b);
        assert(split_slash(a + b) =~= split_slash(a).update(
            split_slash(a).len() - 1,
            split_slash(a).last() + b,
        ));
    }
}

proof fn lemma_split_push_slash(a: Seq<char>)
    ensures
        split_slash(a.push('/')) == split_slash(a).push(Seq::empty()),
{
    assert(a.push('/').drop_last() =~= a);
}

proof fn lemma_split_root()
    ensures
        split_slash(seq!['/']) == seq![Seq::<char>::empty(), Seq::<char>::empty()],
{
    let head = seq!['/'];
    assert(head.drop_last() =~= Seq::<char>::empty());
    assert(split_slash(Seq::<char>::empty()) == seq![Seq::<char>::empty()]);
    assert(head.last() == '/');
    assert(split_slash(head) == split_slash(head.drop_last()).push(Seq::<char>::empty()));
    assert(split_slash(head) =~= seq![Seq::<char>::empty(), Seq::<char>::empty()]);
}

proof fn lemma_segments_of_empties()
    ensures
        segments_components(seq![Seq::<char>::empty()]) == Seq::<PathComponent>::empty(),
        segments_components(seq![Seq::<char>::empty(), Seq::<char>::empty()]) == Seq::<PathComponent>::empty(),
{
    let e1 = seq![Seq::<char>::empty()];
    let e2 = seq![Seq::<char>::empty(), Seq::<char>::empty()];
    assert(e1.drop_last() =~= Seq::<Seq<char>>::empty());
    assert(segments_components(Seq::<Seq<char>>::empty()) == Seq::<PathComponent>::empty());
    assert(segment_components(Seq::<char>::empty()) == Seq::<PathComponent>::empty());
    assert(segments_components(e1) == segments_components(e1.drop_last()) + segment_components(e1.last()));
    assert(segments_components(e1) =~= Seq::<PathComponent>::empty());
    assert(e2.drop_last() =~= e1);
    assert(segments_components(e2) == segments_components(e2.drop_last()) + segment_components(e2.last()));
    assert(segments_components(e2) =~= Seq::<PathComponent>::empty());
}

proof fn lemma_join_nonempty(parts: Seq<Seq<char>>)
    requires
        parts.len() > 0,
        forall|k: int| 0 <= k < parts.len() ==> seg_ok(#[trigger] parts[k]),
    ensures
        join_parts(parts).len() > 0,
        join_parts(parts)[0] == parts[0][0],
    decreases parts.len(),
{
    assert(seg_ok(parts[0]));
    if parts.len() > 1 {
        let dl = parts.drop_last();
        assert forall|k: int| 0 <= k < dl.len() implies seg_ok(#[trigger] dl[k]) by {
            assert(dl[k] == parts[k]);
        }
        lemma_join_nonempty(dl);
    }
}

/// Splitting `head + join(parts)` gives the pieces of `head` followed by `parts`, where `head`
/// is either empty or a single separator.
proof fn lemma_split_join(head: Seq<char>, parts: Seq<Seq<char>>)
    requires
        parts.len() > 0,
        forall|k: int| 0 <= k < parts.len() ==> seg_ok(#[trigger] parts[k]),
        head == Seq::<char>::empty() || head == seq!['/'],
    ensures
        split_slash(head + join_parts(parts)) == (if head.len() == 0 {
            parts
        } else {
            seq![Seq::<char>::empty()] + parts
        }),
    decreases parts.len(),
{
    lemma_split_slash_len(head);
    assert(seg_ok(parts[0]));
    if head.len() == 0 {
        assert(split_slash(head) == seq![Seq::<char>::empty()]);
    } else {
        lemma_split_root();
    }
    if parts.len() == 1 {
        lemma_split_append(head, parts[0]);
        assert(join_parts(parts) == parts[0]);
        if head.len() == 0 {
            assert(split_slash(head + join_parts(parts)) =~= parts);
        } else {
            assert(split_slash(head + join_parts(parts)) =~= seq![Seq::<char>::empty()] + parts);
        }
    } else {
        let dl = parts.drop_last();
        assert forall|k: int| 0 <= k < dl.len() implies seg_ok(#[trigger] dl[k]) by {
            assert(dl[k] == parts[k]);
        }
        lemma_split_join(head, dl);
        let x = head + join_parts(dl);
        assert(head + join_parts(parts) =~= x.push('/') + parts.last());
        assert(seg_ok(parts[parts.len() - 1]));
        lemma_split_append(x.push('/'), parts.last());
        lemma_split_push_slash(x);
        lemma_split_slash_len(x.push('/'));
        assert(Seq::<char>::empty() + parts.last() =~= parts.last());
        if head.len() == 0 {
            assert(split_slash(head + join_parts(parts)) =~= parts);
        } else {
            assert(split_slash(head + join_parts(parts)) =~= seq![Seq::<char>::empty()] + parts);
        }
    }
}

proof fn lemma_segments_concat(a: Seq<Seq<char>>, b: Seq<Seq<char>>)
    ensures
        segments_components(a + b) == segments_components(a) + segments_components(b),
    decreases b.len(),
{
    if b.len() == 0 {
        assert(a + b =~= a);
        assert(segments_components(b) =~= Seq::<PathComponent>::empty());
        assert(segments_components(a) + segments_components(b) =~= segments_components(a));
    } else {
        lemma_segments_concat(a, b.drop_last());
        assert((a + b).drop_last() =~= a + b.drop_last());
        assert((a + b).last() == b.last());
        assert(segments_components(a + b) =~= segments_components(a) + segments_components(b));
    }
}

proof fn lemma_segments_of_parts(parts: Seq<Seq<char>>)
    requires
        forall|k: int| 0 <= k < parts.len() ==> part_ok(#[trigger] parts[k]),
    ensures
        segments_components(parts) == parts_components(parts),
    decreases parts.len(),
{
    if parts.len() > 0 {
        let dl = parts.drop_last();
        assert forall|k: int| 0 <= k < dl.len() implies part_ok(#[trigger] dl[k]) by {
            assert(dl[k] == parts[k]);
        }
        lemma_segments_of_parts(dl);
        assert(part_ok(parts[parts.len() - 1]));
        assert(parts_components(parts) =~= parts_components(dl).push(part_component(parts.last())));
        assert(segment_components(parts.last()) =~= seq![part_component(parts.last())]);
        assert(segments_components(parts) =~= parts_components(parts));
    }
}

/// The components of a rendered buffer are its root followed by its parts.
proof fn lemma_components_render(st: PathState)
    requires
        forall|k: int| 0 <= k < st.1.len() ==> part_ok(#[trigger] st.1[k]),
    ensures
        spec_components(render(st)) == root_prefix(st.0) + parts_components(st.1),
{
    let head: Seq<char> = if st.0 {
        seq!['/']
    } else {
        Seq::empty()
    };
    let r = render(st);
    assert(r == head + join_parts(st.1));
    if st.1.len() == 0 {
        assert(join_parts(st.1) =~= Seq::<char>::empty());
        assert(r =~= head);
        assert(parts_components(st.1) =~= Seq::<PathComponent>::empty());
        lemma_segments_of_empties();
        if st.0 {
            lemma_split_root();
            assert(r =~= seq!['/']);
            assert(spec_components(r) =~= root_prefix(st.0) + parts_components(st.1));
        } else {
            assert(split_slash(r) =~= seq![Seq::<char>::empty()]);
            assert(spec_components(r) =~= root_prefix(st.0) + parts_components(st.1));
        }
    } else {
        assert forall|k: int| 0 <= k < st.1.len() implies seg_ok(#[trigger] st.1[k]) by {
            assert(part_ok(st.1[k]));
        }
        lemma_split_join(head, st.1);
        lemma_segments_of_parts(st.1);
        assert(part_ok(st.1[0]));
        if st.0 {
            assert(r[0] == '/');
            lemma_segments_concat(seq![Seq::<char>::empty()], st.1);
            lemma_segments_of_empties();
            assert(spec_components(r) =~= root_prefix(st.0) + parts_components(st.1));
        } else {
            lemma_join_nonempty(st.1);
            assert(r =~= join_parts(st.1));
            assert(st.1[0].contains(st.1[0][0]));
            assert(r[0] != '/');
            assert(!is_dot(split_slash(r)[0]));
            assert(spec_components(r) =~= root_prefix(st.0) + parts_components(st.1));
        }
    }
}

proof fn lemma_relative_fold_concat(st: PathState, a: Seq<PathComponent>, b: Seq<PathComponent>)
    ensures
        relative_fold(st, a + b) == relative_fold(relative_fold(st, a), b),
    decreases b.len(),
{
    if b.len() == 0 {
        assert(a + b =~= a);
    } else {
        lemma_relative_fold_concat(st, a, b.drop_last());
        assert((a + b).drop_last() =~= a + b.drop_last());
        assert((a + b).last() == b.last());
    }
}

proof fn lemma_normalize_fold_concat(st: PathState, a: Seq<PathComponent>, b: Seq<PathComponent>)
    ensures
        normalize_fold(st, a + b) == normalize_fold(normalize_fold(st, a), b),
    decreases b.len(),
{
    if b.len() == 0 {
        assert(a + b =~= a);
    } else {
        lemma_normalize_fold_concat(st, a, b.drop_last());
        assert((a + b).drop_last() =~= a + b.drop_last());
        assert((a + b).last() == b.last());
    }
}

/// Reading the parts back from an empty buffer rebuilds them.
proof fn lemma_relative_refold(absolute: bool, parts: Seq<Seq<char>>)
    requires
        parts_wf(parts),
    ensures
        relative_fold((absolute, Seq::empty()), parts_components(parts)) == (absolute, parts),
    decreases parts.len(),
{
    if parts.len() > 0 {
        let dl = parts.drop_last();
        assert forall|k: int| 0 <= k < dl.len() implies part_ok(#[trigger] dl[k]) && (k > 0 && is_dot_dot(dl[k])
            ==> is_dot_dot(dl[k - 1])) by {
            assert(dl[k] == parts[k]);
            if k > 0 {
                assert(dl[k - 1] == parts[k - 1]);
            }
        }
        lemma_relative_refold(absolute, dl);
        let pc = parts_components(parts);
        assert(pc.drop_last() =~= parts_components(dl));
        assert(pc.last() == part_component(parts.last()));
        assert(part_ok(parts[parts.len() - 1]));
        let init: PathState = (absolute, Seq::empty());
        assert(relative_fold(init, pc.drop_last()) == (absolute, dl));
        assert(relative_fold(init, pc) == relative_step((absolute, dl), pc.last()));
        if is_dot_dot(parts.last()) {
            if dl.len() > 0 {
                assert(is_dot_dot(parts[parts.len() - 2]));
                assert(dl.last() == parts[parts.len() - 2]);
            }
            assert(pc.last() == PathComponent::ParentDir);
            assert(relative_fold(init, pc).1 == dl.push(seq!['.', '.']));
            assert(parts.last() =~= seq!['.', '.']);
        } else {
            assert(pc.last() == PathComponent::Normal(parts.last()));
        }
        assert(relative_fold(init, pc).1 =~= parts);
    } else {
        assert(parts_components(parts) =~= Seq::<PathComponent>::empty());
    }
}

proof fn lemma_normalize_refold(absolute: bool, parts: Seq<Seq<char>>)
    requires
        parts_plain(parts),
    ensures
        normalize_fold((absolute, Seq::empty()), parts_components(parts)) == (absolute, parts),
        relative_fold((absolute, Seq::empty()), parts_components(parts)) == (absolute, parts),
    decreases parts.len(),
{
    if parts.len() > 0 {
        let dl = parts.drop_last();
        assert forall|k: int| 0 <= k < dl.len() implies part_ok(#[trigger] dl[k]) && !is_dot_dot(dl[k]) by {
            assert(dl[k] == parts[k]);
        }
        lemma_normalize_refold(absolute, dl);
        let pc = parts_components(parts);
        assert(pc.drop_last() =~= parts_components(dl));
        assert(pc.last() == part_component(parts.last()));
        assert(part_ok(parts[parts.len() - 1]) && !is_dot_dot(parts[parts.len() - 1]));
        assert(normalize_fold((absolute, Seq::empty()), pc).1 =~= parts);
        assert(relative_fold((absolute, Seq::empty()), pc).1 =~= parts);
    } else {
        assert(parts_components(parts) =~= Seq::<PathComponent>::empty());
    }
}

proof fn lemma_root_prefix_fold(absolute: bool)
    ensures
        relative_fold(empty_state(), root_prefix(absolute)) == (absolute, Seq::<Seq<char>>::empty()),
        normalize_fold(empty_state(), root_prefix(absolute)) == (absolute, Seq::<Seq<char>>::empty()),
{
    if absolute {
        let r = root_prefix(absolute);
        assert(r.drop_last() =~= Seq::<PathComponent>::empty());
    }
}


/// A component that a piece between separators gives: `..` or a normal one.
pub open spec fn is_plain(c: PathComponent) -> bool {
    c is ParentDir || c is Normal
}

/// The text of a plain component.
pub open spec fn plain_part(c: PathComponent) -> Seq<char> {
    match c {
        PathComponent::ParentDir => seq!['.', '.'],
        PathComponent::Normal(n) => n,
        _ => Seq::empty(),
    }
}

pub open spec fn plain_parts(r: Seq<PathComponent>) -> Seq<Seq<char>> {
    r.map_values(|c: PathComponent| plain_part(c))
}

proof fn lemma_segments_plain(segs: Seq<Seq<char>>)
    ensures
        forall|k: int| 0 <= k < segments_components(segs).len() ==> is_plain(#[trigger] segments_components(segs)[k]),
    decreases segs.len(),
{
    if segs.len() > 0 {
        lemma_segments_plain(segs.drop_last());
        let a = segments_components(segs.drop_last());
        let b = segment_components(segs.last());
        assert forall|k: int| 0 <= k < segments_components(segs).len() implies is_plain(#[trigger] segments_components(segs)[k]) by {
            if k < a.len() {
                assert(segments_components(segs)[k] == a[k]);
            } else {
                assert(segments_components(segs)[k] == b[k - a.len()]);
            }
        }
    }
}

/// Reading plain components back into parts appends their texts.
proof fn lemma_literal_fold_plain(p: Seq<PathComponent>, r: Seq<PathComponent>)
    requires
        forall|k: int| 0 <= k < r.len() ==> is_plain(#[trigger] r[k]),
    ensures
        literal_fold(p + r) == (literal_fold(p).0, literal_fold(p).1 + plain_parts(r)),
    decreases r.len(),
{
    if r.len() == 0 {
        assert(p + r =~= p);
        assert(literal_fold(p).1 + plain_parts(r) =~= literal_fold(p).1);
    } else {
        let rd = r.drop_last();
        assert forall|k: int| 0 <= k < rd.len() implies is_plain(#[trigger] rd[k]) by {
            assert(rd[k] == r[k]);
        }
        lemma_literal_fold_plain(p, rd);
        assert((p + r).drop_last() =~= p + rd);
        assert((p + r).last() == r.last());
        assert(is_plain(r[r.len() - 1]));
        assert(plain_parts(r) =~= plain_parts(rd).push(plain_part(r.last())));
        assert(literal_fold(p + r).1 =~= literal_fold(p).1 + plain_parts(r));
    }
}

proof fn lemma_plain_parts_components(r: Seq<PathComponent>)
    requires
        forall|k: int| 0 <= k < r.len() ==> is_plain(#[trigger] r[k]) && normal_ok(r[k]),
    ensures
        parts_components(plain_parts(r)) == r,
        forall|k: int| 0 <= k < plain_parts(r).len() ==> part_ok(#[trigger] plain_parts(r)[k]),
{
    assert forall|k: int| 0 <= k < plain_parts(r).len() implies part_ok(#[trigger] plain_parts(r)[k])
        && part_component(plain_parts(r)[k]) == r[k] by {
        assert(is_plain(r[k]) && normal_ok(r[k]));
        if r[k] is ParentDir {
            let dd = seq!['.', '.'];
            assert(plain_parts(r)[k] == dd);
            assert(!dd.contains('/')) by {
                if dd.contains('/') {
                    let j = choose|j: int| 0 <= j < dd.len() && dd[j] == '/';
                    assert(dd[j] == '.');
                }
            }
        }
    }
    assert(parts_components(plain_parts(r)) =~= r);
}

/// The components of `.` followed by parts are the current directory followed by the parts.
proof fn lemma_components_render_dot(parts: Seq<Seq<char>>)
    requires
        forall|k: int| 0 <= k < parts.len() ==> part_ok(#[trigger] parts[k]),
    ensures
        spec_components(render((false, seq![seq!['.']] + parts))) == seq![PathComponent::CurDir] + parts_components(parts),
{
    let dot = seq!['.'];
    let x = seq![dot] + parts;
    assert forall|k: int| 0 <= k < x.len() implies seg_ok(#[trigger] x[k]) by {
        if k == 0 {
            assert(x[0] == dot);
            assert(!dot.contains('/')) by {
                if dot.contains('/') {
                    let j = choose|j: int| 0 <= j < dot.len() && dot[j] == '/';
                    assert(dot[j] == '.');
                }
            }
        } else {
            assert(x[k] == parts[k - 1]);
            assert(part_ok(parts[k - 1]));
        }
    }
    let r = render((false, x));
    assert(r =~= join_parts(x));
    lemma_split_join(Seq::empty(), x);
    assert(Seq::<char>::empty() + join_parts(x) =~= join_parts(x));
    lemma_join_nonempty(x);
    assert(split_slash(r) == x);
    assert(r[0] == '.');
    assert(is_dot(split_slash(r)[0]));
    lemma_segments_concat(seq![dot], parts);
    lemma_segments_of_parts(parts);
    assert(seq![dot].drop_last() =~= Seq::<Seq<char>>::empty());
    assert(seq![dot].last() == dot);
    assert(is_dot(dot));
    assert(segment_components(dot) =~= Seq::<PathComponent>::empty());
    assert(segments_components(Seq::<Seq<char>>::empty()) =~= Seq::<PathComponent>::empty());
    assert(segments_components(seq![dot]) =~= Seq::<PathComponent>::empty());
    assert(spec_components(r) =~= seq![PathComponent::CurDir] + parts_components(parts));
}

/// The components of the parent of a path are the components of the path but the last.
pub proof fn law_parent_components(s: Seq<char>)
    ensures
        spec_parent(s) matches Some(p) ==> spec_components(p) == spec_components(s).drop_last(),
{
    let cs = spec_components(s);
    if cs.len() == 0 || cs.last() == PathComponent::RootDir {
        return;
    }
    let segs = split_slash(s);
    let sc = segments_components(segs);
    lemma_split_slash_len(s);
    lemma_segments_plain(segs);
    lemma_components_normal_ok(s);
    let prefix = cs.take(cs.len() - sc.len());
    assert(cs == prefix + sc);
    let d = cs.drop_last();
    if prefix.len() == 0 || sc.len() == 0 {
        // Without a prefix, or with a prefix that is all there is (which must be `.`), the
        // remaining components are plain.
        let r = if prefix.len() == 0 { sc.drop_last() } else { Seq::<PathComponent>::empty() };
        assert(d =~= r);
        assert forall|k: int| 0 <= k < r.len() implies is_plain(#[trigger] r[k]) && normal_ok(r[k]) by {
            assert(r[k] == sc[k]);
            assert(cs[k] == sc[k]);
        }
        lemma_literal_fold_plain(Seq::empty(), r);
        assert(Seq::<PathComponent>::empty() + r =~= r);
        lemma_plain_parts_components(r);
        let st = literal_fold(r);
        assert(st == (false, Seq::<Seq<char>>::empty() + plain_parts(r)));
        assert(Seq::<Seq<char>>::empty() + plain_parts(r) =~= plain_parts(r));
        lemma_components_render(st);
        assert(root_prefix(false) + parts_components(plain_parts(r)) =~= r);
    } else {
        let r = sc.drop_last();
        assert(d =~= prefix + r);
        assert forall|k: int| 0 <= k < r.len() implies is_plain(#[trigger] r[k]) && normal_ok(r[k]) by {
            assert(r[k] == sc[k]);
            assert(cs[k + prefix.len()] == sc[k]);
        }
        lemma_literal_fold_plain(prefix, r);
        lemma_plain_parts_components(r);
        assert(prefix.drop_last() =~= Seq::<PathComponent>::empty());
        if spec_is_absolute(s) {
            assert(prefix == seq![PathComponent::RootDir]);
            assert(literal_fold(prefix) == (true, Seq::<Seq<char>>::empty()));
            assert(Seq::<Seq<char>>::empty() + plain_parts(r) =~= plain_parts(r));
            lemma_components_render((true, plain_parts(r)));
            assert(root_prefix(true) + parts_components(plain_parts(r)) =~= prefix + r);
        } else {
            assert(prefix == seq![PathComponent::CurDir]);
            assert(prefix.last() == PathComponent::CurDir);
            assert(literal_fold(prefix.drop_last()) == empty_state());
            assert(literal_fold(prefix).1 =~= seq![seq!['.']]);
            assert(literal_fold(prefix) == (false, seq![seq!['.']]));
            lemma_components_render_dot(plain_parts(r));
            assert(seq![PathComponent::CurDir] + parts_components(plain_parts(r)) =~= prefix + r);
        }
    }
}


/// The path made of the root followed by the first `k` of `parts`.
pub open spec fn rooted(parts: Seq<Seq<char>>, k: int) -> Seq<char> {
    render((true, parts.take(k)))
}

proof fn lemma_rooted_basic(parts: Seq<Seq<char>>, k: int)
    requires
        parts_plain(parts),
        0 <= k <= parts.len(),
    ensures
        spec_components(rooted(parts, k)) == seq![PathComponent::RootDir] + parts_components(parts.take(k)),
        spec_components(rooted(parts, k)).len() == k + 1,
        path_state(rooted(parts, k)) == (true, parts.take(k)),
        spec_is_normalized(rooted(parts, k)),
{
    let q = parts.take(k);
    assert forall|j: int| 0 <= j < q.len() implies part_ok(#[trigger] q[j]) && !is_dot_dot(q[j]) by {
        assert(q[j] == parts[j]);
    }
    lemma_components_render((true, q));
    assert(root_prefix(true) == seq![PathComponent::RootDir]);
    let pc = parts_components(q);
    lemma_relative_fold_concat(empty_state(), root_prefix(true), pc);
    lemma_root_prefix_fold(true);
    lemma_normalize_refold(true, q);
}

/// For `parts` as normalization leaves them, the paths `rooted(parts, k)` form a chain from the
/// root: each is the parent of the next, which is the former joined with one more part.
pub proof fn lemma_rooted(parts: Seq<Seq<char>>, k: int)
    requires
        parts_plain(parts),
        0 <= k <= parts.len(),
    ensures
        spec_components(rooted(parts, k)) == seq![PathComponent::RootDir] + parts_components(parts.take(k)),
        spec_components(rooted(parts, k)).len() == k + 1,
        spec_is_normalized(rooted(parts, k)),
        k == 0 ==> spec_parent(rooted(parts, k)) is None,
        k > 0 ==> spec_parent(rooted(parts, k)) == Some(rooted(parts, k - 1)),
        k > 0 ==> spec_components(rooted(parts, k)).last() == PathComponent::Normal(parts[k - 1]),
        k > 0 ==> spec_join(rooted(parts, k - 1), parts[k - 1]) == rooted(parts, k),
{
    lemma_rooted_basic(parts, k);
    let cs = spec_components(rooted(parts, k));
    if k == 0 {
        assert(parts.take(0) =~= Seq::<Seq<char>>::empty());
        assert(parts_components(parts.take(0)) =~= Seq::<PathComponent>::empty());
        assert(cs =~= seq![PathComponent::RootDir]);
        assert(cs.last() == PathComponent::RootDir);
    } else {
        lemma_rooted_basic(parts, k - 1);
        let q = parts.take(k - 1);
        let p = parts[k - 1];
        assert(part_ok(p) && !is_dot_dot(p));
        assert(cs.last() == part_component(parts.take(k)[k - 1]));
        assert(parts.take(k)[k - 1] == p);
        assert(cs.last() == PathComponent::Normal(p));
        // the parent
        let r = parts_components(q);
        assert(cs.drop_last() =~= seq![PathComponent::RootDir] + r);
        assert forall|j: int| 0 <= j < r.len() implies is_plain(#[trigger] r[j]) by {
            assert(r[j] == part_component(q[j]));
            assert(q[j] == parts[j]);
        }
        lemma_literal_fold_plain(seq![PathComponent::RootDir], r);
        let root = seq![PathComponent::RootDir];
        assert(root.drop_last() =~= Seq::<PathComponent>::empty());
        assert(root.last() == PathComponent::RootDir);
        assert(literal_fold(root) == (true, Seq::<Seq<char>>::empty()));
        assert(plain_parts(r) =~= q) by {
            assert forall|j: int| 0 <= j < q.len() implies plain_parts(r)[j] == q[j] by {
                assert(q[j] == parts[j]);
                assert(part_ok(parts[j]) && !is_dot_dot(parts[j]));
            }
        }
        assert(Seq::<Seq<char>>::empty() + plain_parts(r) =~= q);
        // joining one more part
        let single: Seq<Seq<char>> = seq![p];
        assert forall|j: int| 0 <= j < single.len() implies part_ok(#[trigger] single[j]) by {
            assert(single[j] == p);
        }
        lemma_components_render((false, single));
        assert(join_parts(single) == p);
        assert(render((false, single)) =~= p);
        assert(parts_components(single) =~= seq![PathComponent::Normal(p)]);
        assert(root_prefix(false) + parts_components(single) =~= seq![PathComponent::Normal(p)]);
        let sc = spec_components(p);
        assert(sc == seq![PathComponent::Normal(p)]);
        assert(sc.drop_last() =~= Seq::<PathComponent>::empty());
        assert(sc.last() == PathComponent::Normal(p));
        assert(normalize_fold((true, q), sc.drop_last()) == (true, q));
        assert(normalize_fold((true, q), sc) == normalize_step((true, q), PathComponent::Normal(p)));
        assert(q.push(p) =~= parts.take(k));
    }
}


/// A path in normal form that starts at the root is the root followed by parts as
/// normalization leaves them.
pub proof fn lemma_normal_form(path: Seq<char>) -> (parts: Seq<Seq<char>>)
    requires
        spec_is_absolute(path),
        spec_normalize(path) == path,
    ensures
        parts_plain(parts),
        rooted(parts, parts.len() as int) == path,
{
    let st = normalize_fold(empty_state(), spec_components(path));
    lemma_components_normal_ok(path);
    lemma_normalize_fold_plain(spec_components(path));
    let parts = st.1;
    assert(path == render(st));
    if !st.0 {
        if parts.len() == 0 {
            assert(join_parts(parts) =~= Seq::<char>::empty());
            assert(render(st) =~= Seq::<char>::empty());
        } else {
            assert forall|k: int| 0 <= k < parts.len() implies seg_ok(#[trigger] parts[k]) by {
                assert(part_ok(parts[k]));
            }
            lemma_join_nonempty(parts);
            assert(render(st) =~= join_parts(parts));
            assert(part_ok(parts[0]));
            assert(parts[0].contains(parts[0][0]));
        }
    }
    assert(parts.take(parts.len() as int) =~= parts);
    parts
}

/// What `normalize_relative` returns is normalized: normalizing it again changes nothing.
pub proof fn law_normalize_relative_is_normalized(s: Seq<char>)
    ensures
        spec_is_normalized(spec_normalize_relative(s)),
{
    let st = relative_fold(empty_state(), spec_components(s));
    lemma_components_normal_ok(s);
    lemma_relative_fold_wf(spec_components(s));
    assert forall|k: int| 0 <= k < st.1.len() implies part_ok(#[trigger] st.1[k]) by {
        assert(parts_wf(st.1));
    }
    lemma_components_render(st);
    lemma_relative_fold_concat(empty_state(), root_prefix(st.0), parts_components(st.1));
    lemma_root_prefix_fold(st.0);
    lemma_relative_refold(st.0, st.1);
}

/// `normalize` is idempotent, and what it returns is normalized.
pub proof fn law_normalize_idempotent(s: Seq<char>)
    ensures
        spec_normalize(spec_normalize(s)) == spec_normalize(s),
        spec_is_normalized(spec_normalize(s)),
{
    let st = normalize_fold(empty_state(), spec_components(s));
    lemma_components_normal_ok(s);
    lemma_normalize_fold_plain(spec_components(s));
    assert forall|k: int| 0 <= k < st.1.len() implies part_ok(#[trigger] st.1[k]) by {
        assert(parts_plain(st.1));
    }
    lemma_components_render(st);
    lemma_normalize_fold_concat(empty_state(), root_prefix(st.0), parts_components(st.1));
    lemma_relative_fold_concat(empty_state(), root_prefix(st.0), parts_components(st.1));
    lemma_root_prefix_fold(st.0);
    lemma_normalize_refold(st.0, st.1);
}

/// Folding components without a root keeps whether the buffer is rooted.
proof fn lemma_normalize_fold_keeps_root(st: PathState, cs: Seq<PathComponent>)
    requires
        forall|k: int| 0 <= k < cs.len() ==> is_plain(#[trigger] cs[k]),
    ensures
        normalize_fold(st, cs).0 == st.0,
    decreases cs.len(),
{
    if cs.len() > 0 {
        let dl = cs.drop_last();
        assert forall|k: int| 0 <= k < dl.len() implies is_plain(#[trigger] dl[k]) by {
            assert(dl[k] == cs[k]);
        }
        lemma_normalize_fold_keeps_root(st, dl);
        assert(is_plain(cs[cs.len() - 1]));
    }
}

/// What `normalize` returns has no `.` and no `..` component, and a path that starts at the
/// root still starts at the root after it.
pub proof fn law_normalize_plain(s: Seq<char>)
    ensures
        forall|k: int| 0 <= k < spec_components(spec_normalize(s)).len() ==> {
            let c = #[trigger] spec_components(spec_normalize(s))[k];
            !(c is CurDir) && !(c is ParentDir)
        },
        spec_is_absolute(s) ==> spec_is_absolute(spec_normalize(s)),
{
    let cs = spec_components(s);
    let st = normalize_fold(empty_state(), cs);
    lemma_components_normal_ok(s);
    lemma_normalize_fold_plain(cs);
    assert forall|k: int| 0 <= k < st.1.len() implies part_ok(#[trigger] st.1[k]) by {
        assert(parts_plain(st.1));
    }
    lemma_components_render(st);
    let out = spec_components(spec_normalize(s));
    assert(out == root_prefix(st.0) + parts_components(st.1));
    assert forall|k: int| 0 <= k < out.len() implies {
        let c = #[trigger] out[k];
        !(c is CurDir) && !(c is ParentDir)
    } by {
        let pre = root_prefix(st.0);
        if k >= pre.len() {
            let p = st.1[k - pre.len()];
            assert(parts_plain(st.1));
            assert(!is_dot_dot(p));
            assert(out[k] == part_component(p));
        }
    }
    if spec_is_absolute(s) {
        let segs = split_slash(s);
        let rest = segments_components(segs);
        assert(cs == seq![PathComponent::RootDir] + rest);
        lemma_normalize_fold_concat(empty_state(), seq![PathComponent::RootDir], rest);
        lemma_root_prefix_fold(true);
        lemma_segments_plain(segs);
        lemma_normalize_fold_keeps_root((true, Seq::<Seq<char>>::empty()), rest);
        assert(st.0);
        assert(spec_normalize(s) == render(st));
        assert(render(st)[0] == '/');
    }
}

/// Splitting `a`, a separator, then `b` gives the pieces of `a` followed by those of `b`.
proof fn lemma_split_slash_concat(a: Seq<char>, b: Seq<char>)
    ensures
        split_slash(a.push('/') + b) == split_slash(a) + split_slash(b),
    decreases b.len(),
{
    if b.len() == 0 {
        assert(a.push('/') + b =~= a.push('/'));
        lemma_split_push_slash(a);
        assert(split_slash(b) == seq![Seq::<char>::empty()]);
        assert(split_slash(a).push(Seq::empty()) =~= split_slash(a) + split_slash(b));
    } else {
        let bd = b.drop_last();
        lemma_split_slash_concat(a, bd);
        lemma_split_slash_len(bd);
        assert((a.push('/') + b).drop_last() =~= a.push('/') + bd);
        assert((a.push('/') + b).last() == b.last());
        let p = split_slash(a) + split_slash(bd);
        if b.last() == '/' {
            assert(split_slash(b) == split_slash(bd).push(Seq::empty()));
            assert(p.push(Seq::empty()) =~= split_slash(a) + split_slash(b));
        } else {
            let q = split_slash(bd);
            assert(split_slash(b) == q.update(q.len() - 1, q.last().push(b.last())));
            assert(p.last() == q.last());
            assert(p.update(p.len() - 1, p.last().push(b.last())) =~= split_slash(a) + split_slash(b));
        }
    }
}

/// The first piece of a path that does not start with a separator starts with the path's first
/// character.
proof fn lemma_first_segment(s: Seq<char>)
    requires
        s.len() > 0,
        s[0] != '/',
    ensures
        split_slash(s)[0].len() > 0,
        split_slash(s)[0][0] == s[0],
    decreases s.len(),
{
    let d = s.drop_last();
    lemma_split_slash_len(d);
    if s.len() == 1 {
        assert(d =~= Seq::<char>::empty());
        assert(split_slash(d) == seq![Seq::<char>::empty()]);
        assert(s.last() == s[0]);
    } else {
        lemma_first_segment(d);
        let p = split_slash(d);
        if s.last() != '/' && p.len() == 1 {
            assert(split_slash(s)[0] == p[0].push(s.last()));
        }
    }
}

/// Folding a leading `.` changes nothing.
proof fn lemma_normalize_fold_skips_dot(st: PathState, cs: Seq<PathComponent>)
    ensures
        normalize_fold(st, seq![PathComponent::CurDir] + cs) == normalize_fold(st, cs),
    decreases cs.len(),
{
    if cs.len() == 0 {
        let one = seq![PathComponent::CurDir];
        assert(one + cs =~= one);
        assert(one.drop_last() =~= Seq::<PathComponent>::empty());
        assert(normalize_fold(st, one) == normalize_step(normalize_fold(st, one.drop_last()), one.last()));
    } else {
        lemma_normalize_fold_skips_dot(st, cs.drop_last());
        let all = seq![PathComponent::CurDir] + cs;
        assert(all.drop_last() =~= seq![PathComponent::CurDir] + cs.drop_last());
        assert(all.last() == cs.last());
    }
}

/// Joining a relative `subpath` onto a normalized absolute `base` with `normalize_with` gives
/// what normalizing `base` with `subpath` pushed onto it gives.
pub proof fn law_normalize_with_is_normalized_join(base: Seq<char>, subpath: Seq<char>)
    requires
        spec_is_absolute(base),
        spec_normalize(base) == base,
        subpath.len() > 0,
        !spec_is_absolute(subpath),
    ensures
        spec_normalize_with(base, subpath) == spec_normalize(spec_push(base, subpath)),
{
    let parts = lemma_normal_form(base);
    let n = parts.len() as int;
    lemma_rooted_basic(parts, n);
    assert(parts.take(n) =~= parts);
    let pc = parts_components(parts);
    // The subpath: an optional leading `.`, then its pieces.
    let sub_segs = split_slash(subpath);
    lemma_split_slash_len(subpath);
    let sc = segments_components(sub_segs);
    let sub_cs = spec_components(subpath);
    assert(sub_cs == seq![PathComponent::CurDir] + sc || sub_cs == sc) by {
        if !is_dot(sub_segs[0]) {
            assert(sub_cs =~= sc);
        }
    }
    assert(sub_cs.len() > 0) by {
        lemma_first_segment(subpath);
        let first = sub_segs[0];
        if !is_dot(first) {
            let one = sub_segs.take(1);
            lemma_segments_concat(one, sub_segs.skip(1));
            assert(one + sub_segs.skip(1) =~= sub_segs);
            assert(one.drop_last() =~= Seq::<Seq<char>>::empty());
            assert(one.last() == first);
            assert(segments_components(Seq::<Seq<char>>::empty()) =~= Seq::<PathComponent>::empty());
            assert(segments_components(one) =~= segment_components(first));
            assert(first.len() > 0);
            assert(segment_components(first).len() == 1);
        }
    }
    let st = (true, parts);
    assert(normalize_fold(st, sub_cs) == normalize_fold(st, sc)) by {
        if sub_cs != sc {
            lemma_normalize_fold_skips_dot(st, sc);
        }
    }
    // The left side.
    assert(path_state(base) == st);
    lemma_segments_plain(sub_segs);
    assert(sub_cs[0] != PathComponent::RootDir) by {
        if sub_cs == sc {
            assert(is_plain(sc[0]));
        }
    }
    assert(spec_normalize_with(base, subpath) == render(normalize_fold(st, sc)));
    // The joined path: the root, the parts of `base`, then the pieces of `subpath`.
    let a: Seq<char> = if n > 0 { base } else { Seq::empty() };
    assert(spec_push(base, subpath) == a.push('/') + subpath) by {
        if n == 0 {
            assert(base == rooted(parts, 0));
            assert(join_parts(parts) =~= Seq::<char>::empty());
            assert(base =~= seq!['/']);
            assert(Seq::<char>::empty().push('/') =~= seq!['/']);
        } else {
            assert(base.last() != '/') by {
                lemma_rooted(parts, n);
                assert(spec_components(base).last() == PathComponent::Normal(parts[n - 1]));
                if base.last() == '/' {
                    lemma_split_push_slash(base.drop_last());
                    assert(base.drop_last().push('/') =~= base);
                    lemma_segments_concat(split_slash(base.drop_last()), seq![Seq::<char>::empty()]);
                    lemma_segments_of_empties();
                    assert(seq![Seq::<char>::empty()].drop_last() =~= Seq::<Seq<char>>::empty());
                }
            }
        }
    }
    let joined = spec_push(base, subpath);
    lemma_split_slash_concat(a, subpath);
    lemma_segments_concat(split_slash(a), sub_segs);
    assert(segments_components(split_slash(a)) == pc) by {
        if n == 0 {
            assert(split_slash(a) == seq![Seq::<char>::empty()]);
            lemma_segments_of_empties();
            assert(pc =~= Seq::<PathComponent>::empty());
        } else {
            assert(spec_components(base) == seq![PathComponent::RootDir] + segments_components(split_slash(base)));
            assert(seq![PathComponent::RootDir] + pc == seq![PathComponent::RootDir] + segments_components(split_slash(base)));
            assert(segments_components(split_slash(base)) =~= (seq![PathComponent::RootDir] + pc).skip(1));
            assert(pc =~= (seq![PathComponent::RootDir] + pc).skip(1));
        }
    }
    assert(joined[0] == '/') by {
        if n > 0 {
            assert(joined[0] == base[0]);
        }
    }
    assert(spec_components(joined) =~= seq![PathComponent::RootDir] + pc + sc);
    lemma_normalize_fold_concat(empty_state(), seq![PathComponent::RootDir] + pc, sc);
    lemma_normalize_fold_concat(empty_state(), seq![PathComponent::RootDir], pc);
    lemma_root_prefix_fold(true);
    lemma_normalize_refold(true, parts);
    assert(normalize_fold(empty_state(), seq![PathComponent::RootDir] + pc) == st);
}

/// The path starts at the root and is its own normal form.
pub open spec fn abs_normal(s: Seq<char>) -> bool {
    spec_is_absolute(s) && spec_normalize(s) == s
}

/// A rooted path of parts as normalization leaves them is its own normal form.
proof fn lemma_rooted_abs_normal(parts: Seq<Seq<char>>, k: int)
    requires
        parts_plain(parts),
        0 <= k <= parts.len(),
    ensures
        abs_normal(rooted(parts, k)),
{
    lemma_rooted(parts, k);
    let q = parts.take(k);
    assert forall|j: int| 0 <= j < q.len() implies part_ok(#[trigger] q[j]) && !is_dot_dot(q[j]) by {
        assert(q[j] == parts[j]);
    }
    lemma_normalize_fold_concat(empty_state(), root_prefix(true), parts_components(q));
    lemma_root_prefix_fold(true);
    lemma_normalize_refold(true, q);
    assert(root_prefix(true) == seq![PathComponent::RootDir]);
    assert(rooted(parts, k)[0] == '/');
}

/// The root is its own normal form.
pub proof fn lemma_root_abs_normal()
    ensures
        abs_normal(seq!['/']),
{
    let parts = Seq::<Seq<char>>::empty();
    lemma_rooted_abs_normal(parts, 0);
    assert(parts.take(0) =~= parts);
    assert(join_parts(parts) =~= Seq::<char>::empty());
    assert(rooted(parts, 0) =~= seq!['/']);
}

/// The parent of a path in normal form that starts at the root is such a path too.
pub proof fn lemma_abs_normal_parent(s: Seq<char>)
    requires
        abs_normal(s),
    ensures
        spec_parent(s) matches Some(p) ==> abs_normal(p),
{
    let parts = lemma_normal_form(s);
    let n = parts.len() as int;
    lemma_rooted(parts, n);
    if n > 0 {
        lemma_rooted_abs_normal(parts, n - 1);
    }
}

/// Normalizing a path that starts at the root gives a path in normal form that starts at the
/// root.
pub proof fn lemma_abs_normal_normalize(s: Seq<char>)
    requires
        spec_is_absolute(s),
    ensures
        abs_normal(spec_normalize(s)),
{
    law_normalize_plain(s);
    law_normalize_idempotent(s);
}

/// Joining a relative, non-empty `sub` onto a path in normal form that starts at the root gives
/// such a path.
pub proof fn lemma_abs_normal_join(base: Seq<char>, sub: Seq<char>)
    requires
        abs_normal(base),
        sub.len() > 0,
        !spec_is_absolute(sub),
    ensures
        abs_normal(spec_join(base, sub)),
{
    law_normalize_idempotent(base);
    assert(spec_is_normalized(base));
    law_normalize_with_is_normalized_join(base, sub);
    let pushed = spec_push(base, sub);
    assert(spec_is_absolute(pushed)) by {
        assert(pushed[0] == base[0]);
    }
    lemma_abs_normal_normalize(pushed);
}

/// Joining the root onto any normalized path gives the root.
pub proof fn lemma_join_root(base: Seq<char>)
    ensures
        spec_join(base, seq!['/']) == seq!['/'],
{
    lemma_split_root();
    let r = seq!['/'];
    lemma_segments_of_empties();
    assert(spec_components(r) =~= seq![PathComponent::RootDir]);
}

} // verus!
