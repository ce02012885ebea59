//! The table of interned paths: every path that the resolver looks at gets one entry, found
//! again by the hash of its text, with its parent interned first and its `node_modules` marks
//! worked out once.
use std::hash::{Hash, Hasher};

use vstd::prelude::*;

use dashmap::DashMap;

use crate::json::str_eq;
use crate::path::{file_name, parent, spec_components, spec_file_name, spec_parent};
use crate::path_laws::law_parent_components;

verus! {

broadcast use vstd::std_specs::hash::group_hash_axioms;

/// What `rustc_hash::FxHasher` gives for a path, fed with the path as the standard library
/// hashes an `OsStr` (its bytes), then finished.
pub uninterp spec fn spec_path_hash(path: Seq<char>) -> u64;

/// Hash the text of `path` with `rustc_hash::FxHasher`, as the path's `OsStr` hashes itself.
#[verifier::external_body]
fn fx_path_hash(path: &str) -> (r: u64)
    ensures
        r == spec_path_hash(path@),
{
    let mut hasher = rustc_hash::FxHasher::default();
    std::path::Path::new(path).as_os_str().hash(&mut hasher);
    hasher.finish()
}

#[verifier::external_type_specification]
#[verifier::external_body]
#[verifier::reject_recursive_types(K)]
#[verifier::reject_recursive_types(V)]
#[verifier::reject_recursive_types(S)]
pub struct ExDashMap<K, V, S>(DashMap<K, V, S>);

/// A `dashmap::DashMap` from the hashes of paths to the positions of their entries.
pub type PathBuckets = DashMap<u64, Vec<usize>>;

/// What a `dashmap::DashMap` from hashes to entry positions holds: for each hash, its positions.
pub uninterp spec fn path_buckets(m: PathBuckets) -> Map<u64, Seq<usize>>;

/// A new, empty `dashmap::DashMap` (`DashMap::new`).
#[verifier::external_body]
fn buckets_new() -> (r: PathBuckets)
    ensures
        path_buckets(r).dom() == Set::<u64>::empty(),
{
    DashMap::new()
}

/// A copy of the positions under `hash` in the map (`DashMap::get`, the value cloned), or
/// nothing when the map has no entry for it.
#[verifier::external_body]
fn buckets_get(m: &PathBuckets, hash: u64) -> (r: Option<Vec<usize>>)
    ensures
        r matches Some(v) ==> path_buckets(*m).contains_key(hash) && v@ == path_buckets(*m)[hash],
        r is None ==> !path_buckets(*m).contains_key(hash),
{
    match m.get(&hash) {
        Some(entry) => Some(entry.value().clone()),
        None => None,
    }
}

/// Put `positions` under `hash` in the map, in place of what was there (`DashMap::insert`).
#[verifier::external_body]
fn buckets_insert(m: &mut PathBuckets, hash: u64, positions: Vec<usize>)
    ensures
        path_buckets(*final(m)) == path_buckets(*old(m)).insert(hash, positions@),
{
    m.insert(hash, positions);
}

/// A path of the table, by its position.
#[derive(Debug, Clone, Copy, PartialEq, Eq, Structural)]
pub struct PathHandle(pub usize);

/// One interned path.
pub struct PathEntry {
    pub path: String,
    pub hash: u64,
    /// The entry of the parent path, when the path has one.
    pub parent: Option<usize>,
    /// The last component is `node_modules`.
    pub is_node_modules: bool,
    /// The path is, or lies inside, a `node_modules` directory.
    pub inside_node_modules: bool,
}

pub open spec fn node_modules_name() -> Seq<char> {
    "node_modules"@
}

/// The interned paths.
pub struct Cache {
    entries: Vec<PathEntry>,
    /// For each hash, the entries of that hash.
    by_hash: PathBuckets,
}

impl Cache {
    /// For each hash, the entries of that hash.
    pub closed spec fn buckets(self) -> Map<u64, Seq<usize>> {
        path_buckets(self.by_hash)
    }

    /// The entries, in the order they were made.
    pub closed spec fn entries(self) -> Seq<PathEntry> {
        self.entries@
    }

    /// Whether some entry holds `path`.
    pub open spec fn holds(self, path: Seq<char>) -> bool {
        exists|i: int| 0 <= i < self.entries().len() && (#[trigger] self.entries()[i]).path@ == path
    }

    /// Each hash leads to entries of that hash and every entry is found under its hash; no two
    /// entries hold the same path; every entry hashes its path, and its parent is an earlier
    /// entry holding the parent path, with the `node_modules` marks worked out from its name
    /// and its parent.
    pub closed spec fn wf(self) -> bool {
        &&& forall|h: u64, j: int| #[trigger] self.buckets().contains_key(h) && 0 <= j < self.buckets()[h].len() ==> {
            let i = #[trigger] self.buckets()[h][j];
            i < self.entries@.len() && self.entries@[i as int].hash == h
        }
        &&& forall|i: int| 0 <= i < self.entries@.len() ==> self.buckets().contains_key(#[trigger] self.entries@[i].hash)
            && self.buckets()[self.entries@[i].hash].contains(i as usize)
        &&& forall|i: int, k: int| 0 <= i < k < self.entries@.len() ==> (#[trigger] self.entries@[i]).path@
            != (#[trigger] self.entries@[k]).path@
        &&& forall|i: int| 0 <= i < self.entries@.len() ==> entry_ok(self.entries@, i)
    }

    pub fn new() -> (r: Self)
        ensures
            r.wf(),
            r.entries().len() == 0,
    {
        Cache { entries: Vec::new(), by_hash: buckets_new() }
    }

    /// Forget every path.
    pub fn clear(&mut self)
        ensures
            final(self).wf(),
            final(self).entries().len() == 0,
    {
        self.entries = Vec::new();
        self.by_hash = buckets_new();
    }

    /// The entry that holds `path`, among the entries of its hash; when there is none, a new
    /// entry, made after the entry of its parent path.
    pub fn value(&mut self, path: &str) -> (r: PathHandle)
        requires
            old(self).wf(),
        ensures
            final(self).wf(),
            r.0 < final(self).entries().len(),
            final(self).entries()[r.0 as int].path@ == path@,
            entry_ok(final(self).entries(), r.0 as int),
            final(self).entries()[r.0 as int].is_node_modules == (spec_file_name(path@) == Some(node_modules_name())),
            final(self).entries()[r.0 as int].inside_node_modules == spec_inside_node_modules(path@),
            old(self).holds(path@) ==> final(self).entries() == old(self).entries(),
            old(self).entries().len() <= final(self).entries().len(),
            forall|i: int| 0 <= i < old(self).entries().len() ==> #[trigger] final(self).entries()[i] == old(self).entries()[i],
            forall|i: int|
                old(self).entries().len() <= i < final(self).entries().len() ==> spec_components(
                    (#[trigger] final(self).entries()[i]).path@,
                ).len() <= spec_components(path@).len(),
        decreases spec_components(path@).len(),
    {
        let hash = fx_path_hash(path);
        if let Some(bucket) = buckets_get(&self.by_hash, hash) {
            let mut j: usize = 0;
            while j < bucket.len()
                invariant
                    j <= bucket@.len(),
                    self.wf(),
                    self.buckets().contains_key(hash),
                    bucket@ == self.buckets()[hash],
                    forall|m: int| 0 <= m < j ==> self.entries@[bucket@[m] as int].path@ != path@,
                decreases bucket.len() - j,
            {
                let i = bucket[j];
                proof {
                    assert(0 <= j < self.buckets()[hash].len());
                    assert(self.buckets()[hash][j as int] == i);
                }
                if str_eq(self.entries[i].path.as_str(), path) {
                    proof {
                        lemma_entry_inside(self.entries@, i as int);
                    }
                    return PathHandle(i);
                }
                j = j + 1;
            }
            proof {
                assert forall|i: int| 0 <= i < self.entries@.len() implies (#[trigger] self.entries@[i]).path@
                    != path@ by {
                    if self.entries@[i].path@ == path@ {
                        assert(self.entries@.len() == self.entries.len());
                        assert(entry_ok(self.entries@, i));
                        assert(self.buckets()[hash].contains(i as usize));
                        let m = choose|m: int| 0 <= m < bucket@.len() && bucket@[m] == i as usize;
                        assert(m < j);
                        assert(bucket@[m] as int == i);
                        assert(self.entries@[bucket@[m] as int].path@ != path@);
                    }
                }
            }
        } else {
            proof {
                assert forall|i: int| 0 <= i < self.entries@.len() implies (#[trigger] self.entries@[i]).path@
                    != path@ by {
                    if self.entries@[i].path@ == path@ {
                        assert(entry_ok(self.entries@, i));
                    }
                }
            }
        }
        let ghost before0 = self.entries@;
        let up = match parent(path) {
            Some(p) => {
                proof {
                    law_parent_components(path@);
                }
                Some(self.value(p.as_str()).0)
            },
            None => None,
        };
        proof {
            assert forall|i: int| 0 <= i < self.entries@.len() implies (#[trigger] self.entries@[i]).path@ != path@ by {
                if i >= before0.len() {
                    assert(spec_components(self.entries@[i].path@).len() < spec_components(path@).len());
                } else {
                    assert(self.entries@[i] == before0[i]);
                }
            }
        }
        let is_node_modules = match file_name(path) {
            Some(name) => str_eq(name.as_str(), "node_modules"),
            None => false,
        };
        let inside_node_modules = match up {
            Some(p) => is_node_modules || self.entries[p].inside_node_modules,
            None => is_node_modules,
        };
        let ghost before = self.entries@;
        let ghost map_before = self.buckets();
        let index = self.entries.len();
        self.entries.push(
            PathEntry { path: path.to_owned(), hash, parent: up, is_node_modules, inside_node_modules },
        );
        let mut bucket = match buckets_get(&self.by_hash, hash) {
            Some(b) => b,
            None => Vec::new(),
        };
        let ghost old_bucket = bucket@;
        bucket.push(index);
        buckets_insert(&mut self.by_hash, hash, bucket);
        proof {
            assert(map_before.contains_key(hash) ==> old_bucket == map_before[hash]);
            assert(!map_before.contains_key(hash) ==> old_bucket.len() == 0);
            assert forall|i: int| 0 <= i < self.entries@.len() implies entry_ok(self.entries@, i) by {
                if i < index {
                    assert(self.entries@[i] == before[i]);
                    assert(entry_ok(before, i));
                    match before[i].parent {
                        Some(p) => {
                            assert(self.entries@[p as int] == before[p as int]);
                        },
                        None => {},
                    }
                } else {
                    match up {
                        Some(p) => {
                            assert(self.entries@[p as int] == before[p as int]);
                        },
                        None => {},
                    }
                }
            }
            assert forall|h: u64, j: int| #[trigger] self.buckets().contains_key(h) && 0 <= j < self.buckets()[h].len() implies {
                let i = #[trigger] self.buckets()[h][j];
                i < self.entries@.len() && self.entries@[i as int].hash == h
            } by {
                if h != hash {
                    assert(self.buckets()[h] == map_before[h]);
                    let i = map_before[h][j];
                    assert(self.entries@[i as int] == before[i as int]);
                } else if j < old_bucket.len() {
                    let i = old_bucket[j];
                    assert(self.buckets()[h][j] == i);
                    assert(map_before[hash][j] == i);
                    assert(self.entries@[i as int] == before[i as int]);
                }
            }
            assert forall|i: int| 0 <= i < self.entries@.len() implies self.buckets().contains_key(
                #[trigger] self.entries@[i].hash,
            ) && self.buckets()[self.entries@[i].hash].contains(i as usize) by {
                if i < index {
                    assert(self.entries@[i] == before[i]);
                    let h = before[i].hash;
                    assert(map_before[h].contains(i as usize));
                    if h == hash {
                        let m = choose|m: int| 0 <= m < map_before[h].len() && map_before[h][m] == i as usize;
                        assert(self.buckets()[h][m] == i as usize);
                    } else {
                        assert(self.buckets()[h] == map_before[h]);
                    }
                } else {
                    assert(self.buckets()[hash][old_bucket.len() as int] == index);
                }
            }
            assert forall|i: int, k: int| 0 <= i < k < self.entries@.len() implies (#[trigger] self.entries@[i]).path@
                != (#[trigger] self.entries@[k]).path@ by {
                if k < index {
                    assert(self.entries@[i] == before[i]);
                    assert(self.entries@[k] == before[k]);
                } else {
                    assert(self.entries@[i] == before[i]);
                }
            }
        }
        proof {
            lemma_entry_inside(self.entries@, index as int);
        }
        PathHandle(index)
    }

    /// Every entry of a well-formed table is as `entry_ok` describes it.
    pub proof fn lemma_entries_ok(self)
        requires
            self.wf(),
        ensures
            forall|i: int| 0 <= i < self.entries().len() ==> #[trigger] entry_ok(self.entries(), i),
    {
    }

    /// The path of the entry `h`.
    pub fn path(&self, h: PathHandle) -> (r: &str)
        requires
            h.0 < self.entries().len(),
        ensures
            r@ == self.entries()[h.0 as int].path@,
    {
        self.entries[h.0].path.as_str()
    }

    /// The entry of the parent path of the entry `h`.
    pub fn parent(&self, h: PathHandle) -> (r: Option<PathHandle>)
        requires
            h.0 < self.entries().len(),
        ensures
            r == (match self.entries()[h.0 as int].parent {
                Some(p) => Some(PathHandle(p)),
                None => None,
            }),
    {
        match self.entries[h.0].parent {
            Some(p) => Some(PathHandle(p)),
            None => None,
        }
    }

    /// Whether the entry `h` is a `node_modules` directory.
    pub fn is_node_modules(&self, h: PathHandle) -> (r: bool)
        requires
            h.0 < self.entries().len(),
        ensures
            r == self.entries()[h.0 as int].is_node_modules,
    {
        self.entries[h.0].is_node_modules
    }

    /// Whether the entry `h` is, or lies inside, a `node_modules` directory.
    pub fn inside_node_modules(&self, h: PathHandle) -> (r: bool)
        requires
            h.0 < self.entries().len(),
        ensures
            r == self.entries()[h.0 as int].inside_node_modules,
    {
        self.entries[h.0].inside_node_modules
    }
}

/// The path is a `node_modules` directory or lies inside one: its last component, or the last
/// component of one of its ancestors, is `node_modules`.
pub open spec fn spec_inside_node_modules(path: Seq<char>) -> bool
    decreases spec_components(path).len(),
{
    if spec_file_name(path) == Some(node_modules_name()) {
        true
    } else {
        match spec_parent(path) {
            Some(p) => {
                proof {
                    law_parent_components(path);
                }
                spec_inside_node_modules(p)
            },
            None => false,
        }
    }
}

/// In a table whose entries are as `entry_ok` describes them, an entry is inside `node_modules`
/// exactly when its path is.
pub proof fn lemma_entry_inside(es: Seq<PathEntry>, i: int)
    requires
        0 <= i < es.len(),
        forall|j: int| 0 <= j < es.len() ==> #[trigger] entry_ok(es, j),
    ensures
        es[i].inside_node_modules == spec_inside_node_modules(es[i].path@),
    decreases i,
{
    assert(entry_ok(es, i));
    match es[i].parent {
        Some(p) => {
            lemma_entry_inside(es, p as int);
        },
        None => {},
    }
}

/// The entry at `i` hashes its path; it has a parent entry exactly when its path has a parent,
/// and that entry is an earlier one holding the parent path; it is a
/// `node_modules` directory when its last component is `node_modules`, and inside one when it
/// is one or its parent entry is inside one.
pub open spec fn entry_ok(es: Seq<PathEntry>, i: int) -> bool {
    let e = es[i];
    &&& e.hash == spec_path_hash(e.path@)
    &&& e.is_node_modules == (spec_file_name(e.path@) == Some(node_modules_name()))
    &&& match e.parent {
        Some(p) => {
            &&& p < i
            &&& spec_parent(e.path@) == Some(es[p as int].path@)
            &&& e.inside_node_modules == (e.is_node_modules || es[p as int].inside_node_modules)
        },
        None => spec_parent(e.path@) is None && e.inside_node_modules == e.is_node_modules,
    }
}

} // verus!
