//! A file-name index over the keys of the `"browser"` field (and the other alias fields), for
//! the reverse lookup that runs for every file candidate: only keys that share the candidate's
//! file name, and the rare keys without a file name, are confirmed.
use std::hash::{Hash, Hasher};

use vstd::prelude::*;

use crate::error::ResolveError;
use crate::json::{str_eq, JsonObject, JsonValue};
use crate::package_json::{
    alias_value, browser_key_matches, flatten_entries, opt_str_view, refs_view, spec_alias_result,
    spec_browser_value, spec_first_match, spec_flatten, spec_objects_at_paths, PackageJson,
};
use crate::path::{file_name, parent, same_path, spec_file_name, spec_parent, PathUtil};

verus! {

/// The keys of `entries`, in order.
pub open spec fn keys_of(entries: Seq<(String, JsonValue)>) -> Seq<Seq<char>> {
    entries.map_values(|e: (String, JsonValue)| e.0@)
}

pub open spec fn strictly_increasing(s: Seq<usize>) -> bool {
    forall|i: int, j: int| 0 <= i < j < s.len() ==> s[i] < s[j]
}

/// `list` holds, in increasing order, exactly the positions of the keys whose file name is
/// `name`.
pub open spec fn lists_positions(keys: Seq<Seq<char>>, name: Option<Seq<char>>, list: Seq<usize>) -> bool {
    &&& strictly_increasing(list)
    &&& forall|k: int| 0 <= k < list.len() ==> list[k] < keys.len() && spec_file_name(keys[list[k] as int]) == name
    &&& forall|g: int| 0 <= g < keys.len() && spec_file_name(#[trigger] keys[g]) == name ==> list.contains(g as usize)
}

pub open spec fn group_names(groups: Seq<(String, Vec<usize>)>) -> Seq<Seq<char>> {
    groups.map_values(|g: (String, Vec<usize>)| g.0@)
}

/// An index over the keys of the alias fields, in declaration order (field order, then object
/// order).
pub struct BrowserIndex {
    /// The positions of the keys, grouped by file name.
    by_file_name: Vec<(String, Vec<usize>)>,
    /// The positions of the keys without a file name (`.`, `..`, ...).
    unindexable: Vec<usize>,
    /// The keys the positions refer to.
    keys: Ghost<Seq<Seq<char>>>,
}

impl BrowserIndex {
    /// The indexed keys.
    pub closed spec fn keys(self) -> Seq<Seq<char>> {
        self.keys@
    }

    /// Every key is listed under its file name, or as unindexable.
    pub closed spec fn well_formed(self) -> bool {
        let keys = self.keys@;
        &&& lists_positions(keys, None, self.unindexable@)
        &&& forall|a: int, b: int|
            0 <= a < b < self.by_file_name@.len() ==> (#[trigger] self.by_file_name@[a]).0@
                != (#[trigger] self.by_file_name@[b]).0@
        &&& forall|a: int|
            0 <= a < self.by_file_name@.len() ==> lists_positions(
                keys,
                Some((#[trigger] self.by_file_name@[a]).0@),
                self.by_file_name@[a].1@,
            )
        &&& forall|g: int|
            0 <= g < keys.len() && spec_file_name(#[trigger] keys[g]) is Some ==> group_names(self.by_file_name@).contains(
                spec_file_name(keys[g])->Some_0,
            )
    }
}

/// The group of `name`, when there is one.
fn find_group(groups: &Vec<(String, Vec<usize>)>, name: &str) -> (r: Option<usize>)
    ensures
        match r {
            Some(a) => a < groups@.len() && groups@[a as int].0@ == name@,
            None => !group_names(groups@).contains(name@),
        },
{
    let mut a: usize = 0;
    while a < groups.len()
        invariant
            a <= groups@.len(),
            forall|k: int| 0 <= k < a ==> groups@[k].0@ != name@,
        decreases groups.len() - a,
    {
        if str_eq(groups[a].0.as_str(), name) {
            return Some(a);
        }
        a = a + 1;
    }
    proof {
        assert forall|k: int| 0 <= k < groups@.len() implies group_names(groups@)[k] != name@ by {}
    }
    None
}

/// Build the index over the keys `pairs`, in order.
fn index_keys(pairs: &Vec<&(String, JsonValue)>) -> (r: BrowserIndex)
    ensures
        r.keys() == keys_of(refs_view(pairs@)),
        r.well_formed(),
{
    let ghost keys = keys_of(refs_view(pairs@));
    let mut by_file_name: Vec<(String, Vec<usize>)> = Vec::new();
    let mut unindexable: Vec<usize> = Vec::new();
    let mut g: usize = 0;
    while g < pairs.len()
        invariant
            g <= pairs@.len(),
            keys == keys_of(refs_view(pairs@)),
            lists_positions(keys.take(g as int), None, unindexable@),
            forall|a: int, b: int|
                0 <= a < b < by_file_name@.len() ==> (#[trigger] by_file_name@[a]).0@
                    != (#[trigger] by_file_name@[b]).0@,
            forall|a: int|
                0 <= a < by_file_name@.len() ==> lists_positions(
                    keys.take(g as int),
                    Some((#[trigger] by_file_name@[a]).0@),
                    by_file_name@[a].1@,
                ),
            forall|h: int|
                0 <= h < g && spec_file_name(#[trigger] keys[h]) is Some ==> group_names(by_file_name@).contains(
                    spec_file_name(keys[h])->Some_0,
                ),
        decreases pairs.len() - g,
    {
        let key = pairs[g].0.as_str();
        let ghost before_groups = by_file_name@;
        let ghost before_unindexable = unindexable@;
        proof {
            assert(keys[g as int] == key@);
            assert(keys.take(g as int + 1) =~= keys.take(g as int).push(key@));
        }
        match file_name(key) {
            Some(name) => {
                match find_group(&by_file_name, name.as_str()) {
                    Some(a) => {
                        let mut list = by_file_name[a].1.clone();
                        let ghost old_list = list@;
                        list.push(g);
                        let name_a = by_file_name[a].0.clone();
                        by_file_name.set(a, (name_a, list));
                        proof {
                            lemma_extend_positions(keys, g as int, Some(name@), old_list);
                            assert forall|b: int| 0 <= b < by_file_name@.len() && b != a implies lists_positions(
                                keys.take(g as int + 1),
                                Some((#[trigger] by_file_name@[b]).0@),
                                by_file_name@[b].1@,
                            ) by {
                                assert(by_file_name@[b] == before_groups[b]);
                                lemma_extend_positions_other(keys, g as int, Some(before_groups[b].0@), before_groups[b].1@);
                            }
                            assert(group_names(by_file_name@) =~= group_names(before_groups));
                            assert(group_names(by_file_name@)[a as int] == name@);
                        }
                    },
                    None => {
                        let mut list: Vec<usize> = Vec::new();
                        list.push(g);
                        by_file_name.push((name, list));
                        proof {
                            assert(list@ =~= seq![g]);
                            lemma_new_positions(keys, g as int, name@);
                            assert forall|b: int| 0 <= b < before_groups.len() implies lists_positions(
                                keys.take(g as int + 1),
                                Some((#[trigger] by_file_name@[b]).0@),
                                by_file_name@[b].1@,
                            ) by {
                                assert(by_file_name@[b] == before_groups[b]);
                                assert(group_names(before_groups)[b] == before_groups[b].0@);
                                lemma_extend_positions_other(keys, g as int, Some(before_groups[b].0@), before_groups[b].1@);
                            }
                            assert(group_names(by_file_name@) =~= group_names(before_groups).push(name@));
                            assert(group_names(by_file_name@)[before_groups.len() as int] == name@);
                            assert forall|a: int, b: int|
                                0 <= a < b < by_file_name@.len() implies (#[trigger] by_file_name@[a]).0@
                                    != (#[trigger] by_file_name@[b]).0@ by {
                                if b == before_groups.len() {
                                    assert(group_names(before_groups)[a] == by_file_name@[a].0@);
                                }
                            }
                        }
                    },
                }
                proof {
                    lemma_extend_positions_other(keys, g as int, None, before_unindexable);
                    assert(group_names(by_file_name@).contains(name@));
                    assert forall|h: int|
                        0 <= h < g + 1 && spec_file_name(#[trigger] keys[h]) is Some implies group_names(by_file_name@).contains(
                            spec_file_name(keys[h])->Some_0,
                        ) by {
                        if h < g {
                            let n = spec_file_name(keys[h])->Some_0;
                            assert(group_names(before_groups).contains(n));
                            let k = choose|k: int| 0 <= k < group_names(before_groups).len() && group_names(before_groups)[k] == n;
                            assert(group_names(by_file_name@)[k] == n);
                        }
                    }
                }
            },
            None => {
                unindexable.push(g);
                proof {
                    lemma_extend_positions(keys, g as int, None, before_unindexable);
                    assert(by_file_name@ == before_groups);
                    assert forall|b: int| 0 <= b < by_file_name@.len() implies lists_positions(
                        keys.take(g as int + 1),
                        Some((#[trigger] by_file_name@[b]).0@),
                        by_file_name@[b].1@,
                    ) by {
                        lemma_extend_positions_other(keys, g as int, Some(before_groups[b].0@), before_groups[b].1@);
                    }
                }
            },
        }
        g = g + 1;
    }
    proof {
        assert(keys.take(pairs@.len() as int) =~= keys);
    }
    BrowserIndex { by_file_name, unindexable, keys: Ghost(keys) }
}

/// Listing the next position `g` under its own file name keeps the list right.
proof fn lemma_extend_positions(keys: Seq<Seq<char>>, g: int, name: Option<Seq<char>>, list: Seq<usize>)
    requires
        0 <= g < keys.len(),
        g < usize::MAX,
        spec_file_name(keys[g]) == name,
        lists_positions(keys.take(g), name, list),
    ensures
        lists_positions(keys.take(g + 1), name, list.push(g as usize)),
{
    let next = list.push(g as usize);
    assert forall|i: int, j: int| 0 <= i < j < next.len() implies next[i] < next[j] by {
        if j == next.len() - 1 {
            assert(list[i] < keys.take(g).len());
        }
    }
    assert forall|h: int| 0 <= h < keys.take(g + 1).len() && spec_file_name(#[trigger] keys.take(g + 1)[h]) == name implies next.contains(
        h as usize,
    ) by {
        if h < g {
            assert(keys.take(g)[h] == keys[h]);
            assert(list.contains(h as usize));
            let k = choose|k: int| 0 <= k < list.len() && list[k] == h as usize;
            assert(next[k] == h as usize);
        } else {
            assert(next[next.len() - 1] == g as usize);
        }
    }
    assert forall|k: int| 0 <= k < next.len() implies next[k] < keys.take(g + 1).len() && spec_file_name(
        keys.take(g + 1)[next[k] as int],
    ) == name by {
        if k < list.len() {
            assert(keys.take(g + 1)[list[k] as int] == keys.take(g)[list[k] as int]);
        }
    }
}

/// A list for another file name is still right when the next key is not listed in it.
proof fn lemma_extend_positions_other(keys: Seq<Seq<char>>, g: int, name: Option<Seq<char>>, list: Seq<usize>)
    requires
        0 <= g < keys.len(),
        lists_positions(keys.take(g), name, list),
    ensures
        spec_file_name(keys[g]) != name ==> lists_positions(keys.take(g + 1), name, list),
{
    if spec_file_name(keys[g]) != name {
        assert forall|h: int| 0 <= h < keys.take(g + 1).len() && spec_file_name(#[trigger] keys.take(g + 1)[h]) == name implies list.contains(
            h as usize,
        ) by {
            assert(keys.take(g)[h] == keys[h]);
        }
        assert forall|k: int| 0 <= k < list.len() implies list[k] < keys.take(g + 1).len() && spec_file_name(
            keys.take(g + 1)[list[k] as int],
        ) == name by {
            assert(keys.take(g + 1)[list[k] as int] == keys.take(g)[list[k] as int]);
        }
    }
}

/// A new file name's list starts with the next position.
proof fn lemma_new_positions(keys: Seq<Seq<char>>, g: int, name: Seq<char>)
    requires
        0 <= g < keys.len(),
        g < usize::MAX,
        spec_file_name(keys[g]) == Some(name),
        forall|h: int| 0 <= h < g ==> spec_file_name(#[trigger] keys[h]) != Some(name),
    ensures
        lists_positions(keys.take(g + 1), Some(name), seq![g as usize]),
{
    assert forall|h: int| 0 <= h < keys.take(g + 1).len() && spec_file_name(#[trigger] keys.take(g + 1)[h]) == Some(name) implies seq![
        g as usize,
    ].contains(h as usize) by {
        if h < g {
            assert(keys.take(g + 1)[h] == keys[h]);
        } else {
            assert(seq![g as usize][0] == h as usize);
        }
    }
}

/// The first key that maps onto `path` is at `h` when no earlier key does and the key at `h`
/// does.
proof fn lemma_first_match_at(entries: Seq<(String, JsonValue)>, dir: Seq<char>, path: Seq<char>, h: int)
    requires
        0 <= h <= entries.len(),
        forall|g: int| 0 <= g < h ==> !browser_key_matches(dir, (#[trigger] entries[g]).0@, path),
        h < entries.len() ==> browser_key_matches(dir, entries[h].0@, path),
    ensures
        spec_first_match(entries, dir, path) == h,
    decreases entries.len(),
{
    if entries.len() > 0 && h > 0 {
        assert(!browser_key_matches(dir, entries[0].0@, path));
        assert forall|g: int| 0 <= g < h - 1 implies !browser_key_matches(dir, (#[trigger] entries.skip(1)[g]).0@, path) by {
            assert(entries.skip(1)[g] == entries[g + 1]);
        }
        if h < entries.len() {
            assert(entries.skip(1)[h - 1] == entries[h]);
        }
        lemma_first_match_at(entries.skip(1), dir, path, h - 1);
    }
}

/// The positions listed for the file name `name` of the candidate path: those with that file
/// name, or none when the path has no file name.
pub open spec fn candidates_listed(keys: Seq<Seq<char>>, name: Option<Seq<char>>, list: Seq<usize>) -> bool {
    &&& name is Some ==> lists_positions(keys, name, list)
    &&& name is None ==> list.len() == 0
}

/// Every key before `h` has been confirmed not to map onto `path`, when `h` is at most the next
/// position of both lists.
proof fn lemma_no_earlier_match(
    entries: Seq<(String, JsonValue)>,
    dir: Seq<char>,
    path: Seq<char>,
    a: Seq<usize>,
    b: Seq<usize>,
    i: int,
    j: int,
    h: int,
)
    requires
        candidates_listed(keys_of(entries), spec_file_name(path), a),
        lists_positions(keys_of(entries), None, b),
        0 <= i <= a.len(),
        0 <= j <= b.len(),
        forall|k: int| 0 <= k < i ==> !browser_key_matches(dir, entries[(#[trigger] a[k]) as int].0@, path),
        forall|k: int| 0 <= k < j ==> !browser_key_matches(dir, entries[(#[trigger] b[k]) as int].0@, path),
        i < a.len() ==> h <= a[i],
        j < b.len() ==> h <= b[j],
        0 <= h <= entries.len(),
        entries.len() <= usize::MAX,
    ensures
        forall|g: int| 0 <= g < h ==> !browser_key_matches(dir, (#[trigger] entries[g]).0@, path),
{
    let keys = keys_of(entries);
    assert forall|g: int| 0 <= g < h implies !browser_key_matches(dir, (#[trigger] entries[g]).0@, path) by {
        assert(keys.len() == entries.len());
        assert(keys[g] == entries[g].0@);
        let n = spec_file_name(keys[g]);
        if n is None {
            assert(b.contains(g as usize));
            let k = choose|k: int| 0 <= k < b.len() && b[k] == g as usize;
            if k >= j {
                assert(b[k] >= b[j]);
            }
            assert(!browser_key_matches(dir, entries[b[k] as int].0@, path));
        } else if n == spec_file_name(path) {
            assert(a.contains(g as usize));
            let k = choose|k: int| 0 <= k < a.len() && a[k] == g as usize;
            if k >= i {
                assert(a[k] >= a[i]);
            }
            assert(!browser_key_matches(dir, entries[a[k] as int].0@, path));
        } else {
            assert(spec_file_name(entries[g].0@) is Some && spec_file_name(entries[g].0@) != spec_file_name(path));
        }
    }
}

impl PackageJson {
    /// Build the file-name index over the keys of the alias fields, in declaration order;
    /// `None` when no alias field is an object.
    pub fn build_browser_index(&self, alias_fields: &[Vec<String>]) -> (r: Option<BrowserIndex>)
        ensures
            spec_objects_at_paths(self.root, alias_fields@).len() == 0 <==> r is None,
            r matches Some(index) ==> index.well_formed() && index.keys() == keys_of(
                spec_flatten(spec_objects_at_paths(self.root, alias_fields@)),
            ),
    {
        let objects = self.browser_fields(alias_fields);
        if objects.len() == 0 {
            return None;
        }
        let pairs = flatten_entries(&objects);
        Some(index_keys(&pairs))
    }

    /// Reverse lookup through the index: only keys sharing the candidate's file name (plus the
    /// keys without a file name) are confirmed, in declaration order; the first confirmed key
    /// wins, as in the scan of [`PackageJson::resolve_browser_field`].
    pub fn browser_reverse_lookup<'a>(
        &'a self,
        index: &BrowserIndex,
        path: &str,
        alias_fields: &[Vec<String>],
    ) -> (r: Result<Option<&'a str>, ResolveError>)
        requires
            index.well_formed(),
            index.keys() == keys_of(spec_flatten(spec_objects_at_paths(self.root, alias_fields@))),
            spec_parent(self.path@) is Some,
        ensures
            match spec_browser_value(spec_objects_at_paths(self.root, alias_fields@), self.path@, path@, None) {
                Some(v) => spec_alias_result(path@, v, r),
                None => r matches Ok(None),
            },
    {
        let objects = self.browser_fields(alias_fields);
        let ghost objs = refs_view(objects@);
        let pairs = flatten_entries(&objects);
        let ghost entries = spec_flatten(objs);
        let ghost keys = index.keys@;
        let dir = match parent(self.path.as_str()) {
            Some(d) => d,
            None => return Ok(None),
        };
        let path_name = file_name(path);
        let empty: Vec<usize> = Vec::new();
        let a: &Vec<usize> = match &path_name {
            Some(n) => match find_group(&index.by_file_name, n.as_str()) {
                Some(g) => &index.by_file_name[g].1,
                None => &empty,
            },
            None => &empty,
        };
        let b: &Vec<usize> = &index.unindexable;
        proof {
            assert(keys == keys_of(entries));
            if path_name is Some && a@.len() == 0 {
                let n = spec_file_name(path@)->Some_0;
                assert forall|g: int| 0 <= g < keys.len() && spec_file_name(#[trigger] keys[g]) == Some(n) implies a@.contains(g as usize) by {
                    assert(group_names(index.by_file_name@).contains(n));
                }
            }
        }
        let mut i: usize = 0;
        let mut j: usize = 0;
        loop
            invariant
                i <= a@.len(),
                j <= b@.len(),
                entries == refs_view(pairs@),
                entries.len() == pairs.len(),
                entries == spec_flatten(objs),
                objs == spec_objects_at_paths(self.root, alias_fields@),
                keys == keys_of(entries),
                spec_parent(self.path@) == Some(dir@),
                candidates_listed(keys, spec_file_name(path@), a@),
                lists_positions(keys, None, b@),
                forall|k: int| 0 <= k < i ==> !browser_key_matches(dir@, entries[(#[trigger] a@[k]) as int].0@, path@),
                forall|k: int| 0 <= k < j ==> !browser_key_matches(dir@, entries[(#[trigger] b@[k]) as int].0@, path@),
            decreases a@.len() + b@.len() - i - j,
        {
            let from_a = i < a.len() && (j >= b.len() || a[i] < b[j]);
            let h: usize = if from_a {
                a[i]
            } else if j < b.len() {
                b[j]
            } else {
                proof {
                    lemma_no_earlier_match(entries, dir@, path@, a@, b@, i as int, j as int, entries.len() as int);
                    lemma_first_match_at(entries, dir@, path@, entries.len() as int);
                }
                return Ok(None);
            };
            proof {
                if from_a {
                    assert(keys.len() == entries.len());
                    assert(h < entries.len());
                } else {
                    assert(h < entries.len());
                }
            }
            let pair = pairs[h];
            let key = pair.0.as_str();
            proof {
                assert(entries[h as int] == *pairs@[h as int]);
                assert(keys[h as int] == key@);
            }
            let joined = dir.as_str().normalize_with(key);
            if same_path(joined.as_str(), path) {
                proof {
                    if from_a {
                        assert(spec_file_name(keys[h as int]) == spec_file_name(path@));
                    } else {
                        assert(spec_file_name(keys[h as int]) is None);
                    }
                    assert(browser_key_matches(dir@, entries[h as int].0@, path@));
                    lemma_no_earlier_match(entries, dir@, path@, a@, b@, i as int, j as int, h as int);
                    lemma_first_match_at(entries, dir@, path@, h as int);
                }
                return alias_value(path, &pair.1);
            }
            proof {
                assert(!browser_key_matches(dir@, entries[h as int].0@, path@));
            }
            if from_a {
                i = i + 1;
            } else {
                j = j + 1;
            }
        }
    }
}


/// The text of each segment of each field path.
pub open spec fn field_paths_view(fields: Seq<Vec<String>>) -> Seq<Seq<Seq<char>>> {
    fields.map_values(|f: Vec<String>| f@.map_values(|s: String| s@))
}

/// What `rustc_hash::FxHasher` gives for a list of field paths fed to it as the standard
/// library hashes a slice of vectors of strings (each length, then each item), then finished.
pub uninterp spec fn spec_fx_hash_fields(fields: Seq<Seq<Seq<char>>>) -> u64;

/// Hash the field paths with `rustc_hash::FxHasher`.
#[verifier::external_body]
fn fx_hash_fields(fields: &[Vec<String>]) -> (r: u64)
    ensures
        r == spec_fx_hash_fields(field_paths_view(fields@)),
{
    let mut hasher = rustc_hash::FxHasher::default();
    fields.hash(&mut hasher);
    hasher.finish()
}

/// The hash of an alias-fields configuration, which tells whether an index built for one
/// configuration serves another: the number of field paths, then for each its number of
/// segments and its segments, hashed with `rustc_hash::FxHasher`.
pub fn hash_alias_fields(alias_fields: &[Vec<String>]) -> (r: u64)
    ensures
        r == spec_fx_hash_fields(field_paths_view(alias_fields@)),
{
    fx_hash_fields(alias_fields)
}
} // verus!
