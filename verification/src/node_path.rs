//! `NODE_PATH` support, aligned with Node.js module loading from the global folders.
use vstd::prelude::*;

use crate::text::{chars_to_string, str_chars};

verus! {

/// `s` split at every `:` (the pieces between separators, empty ones included).
pub open spec fn split_colon(s: Seq<char>) -> Seq<Seq<char>>
    decreases s.len(),
{
    if s.len() == 0 {
        seq![Seq::empty()]
    } else {
        let prev = split_colon(s.drop_last());
        if s.last() == ':' {
            prev.push(Seq::empty())
        } else {
            prev.update(prev.len() - 1, prev.last().push(s.last()))
        }
    }
}

proof fn lemma_split_colon_len(s: Seq<char>)
    ensures
        split_colon(s).len() >= 1,
    decreases s.len(),
{
    if s.len() > 0 {
        lemma_split_colon_len(s.drop_last());
    }
}

pub open spec fn is_absolute_entry(p: Seq<char>) -> bool {
    p.len() > 0 && p[0] == '/'
}

/// The absolute entries of `parts`, in order.
pub open spec fn keep_absolute(parts: Seq<Seq<char>>) -> Seq<Seq<char>>
    decreases parts.len(),
{
    if parts.len() == 0 {
        Seq::empty()
    } else {
        keep_absolute(parts.drop_last()) + if is_absolute_entry(parts.last()) {
            seq![parts.last()]
        } else {
            Seq::empty()
        }
    }
}

pub open spec fn strings_view(v: Seq<String>) -> Seq<Seq<char>> {
    v.map_values(|s: String| s@)
}

/// `NODE_PATH`: a `:`-separated list of global folders.
pub struct NodePath;

impl NodePath {
    /// The absolute folders of a `NODE_PATH` value, in order; relative and empty entries are
    /// dropped.
    pub fn parse(node_path: Option<&str>) -> (r: Vec<String>)
        ensures
            match node_path {
                Some(p) => strings_view(r@) == keep_absolute(split_colon(p@)),
                None => r@.len() == 0,
            },
    {
        let text = match node_path {
            Some(p) => p,
            None => return Vec::new(),
        };
        let chars = str_chars(text);
        let mut out: Vec<String> = Vec::new();
        let mut done: Ghost<Seq<Seq<char>>> = Ghost(Seq::empty());
        let mut cur: Vec<char> = Vec::new();
        let mut i: usize = 0;
        proof {
            assert(chars@.take(0) =~= Seq::<char>::empty());
            assert(split_colon(chars@.take(0)) =~= done@.push(cur@));
        }
        while i < chars.len()
            invariant
                i <= chars@.len(),
                chars@ == text@,
                split_colon(chars@.take(i as int)) == done@.push(cur@),
                strings_view(out@) == keep_absolute(done@),
            decreases chars.len() - i,
        {
            let c = chars[i];
            proof {
                assert(chars@.take(i as int + 1).drop_last() =~= chars@.take(i as int));
                assert(chars@.take(i as int + 1).last() == c);
            }
            if c == ':' {
                let ghost before = out@;
                if cur.len() > 0 && cur[0] == '/' {
                    out.push(chars_to_string(cur.as_slice()));
                    proof {
                        assert(strings_view(out@) =~= strings_view(before).push(cur@));
                    }
                }
                proof {
                    assert(done@.push(cur@).drop_last() =~= done@);
                    assert(strings_view(out@) =~= keep_absolute(done@.push(cur@)));
                    done@ = done@.push(cur@);
                }
                cur = Vec::new();
                proof {
                    assert(split_colon(chars@.take(i as int + 1)) =~= done@.push(cur@));
                }
            } else {
                cur.push(c);
                proof {
                    assert(split_colon(chars@.take(i as int + 1)) =~= done@.push(cur@));
                }
            }
            i = i + 1;
        }
        proof {
            assert(chars@.take(chars@.len() as int) =~= chars@);
        }
        let ghost before = out@;
        if cur.len() > 0 && cur[0] == '/' {
            out.push(chars_to_string(cur.as_slice()));
            proof {
                assert(strings_view(out@) =~= strings_view(before).push(cur@));
            }
        }
        proof {
            assert(done@.push(cur@).drop_last() =~= done@);
            assert(strings_view(out@) =~= keep_absolute(done@.push(cur@)));
        }
        out
    }
}

} // verus!
