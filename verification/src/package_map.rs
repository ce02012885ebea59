//! Node.js package maps.
//!
//! A package map is one static JSON file containing a `packages` object. Each key is an opaque,
//! unique package ID. Its value has a required `url` and an optional `dependencies` object that
//! maps the bare package name used by source code to another package ID.
//!
//! Entry URLs are resolved from the package map's effective location into filesystem paths.
//! Explicit URLs must use the `file:` protocol. The resulting paths form the index used by
//! [`PackageMap::find_package_id`] to identify the package that owns an importer. Multiple IDs
//! resolving to the same owning path are retained as ambiguous.
pub mod node_options;
pub mod url;

use vstd::prelude::*;

use crate::context::{recorded, same_but_dependencies, ResolveContext};
use crate::error::{JSONError, ResolveError};
use crate::json::{spec_object_get, str_eq, JsonObject, JsonValue};
use crate::package_map::node_options::spec_node_options_map_path;
use crate::package_map::url::{debug_str, resolve_url_from, spec_debug_str, spec_resolve_url};
use vstd::string::StringExecFns;
use crate::path::{
    component_eq, components, components_view, is_absolute, spec_components, spec_is_absolute,
    spec_join, spec_normalize, Component, PathComponent, PathUtil,
};

verus! {

broadcast use vstd::string::group_string_axioms;

/// The package-map path that `NODE_OPTIONS` selects: a relative path is taken from `cwd`,
/// an absolute one is normalized.
pub open spec fn spec_package_map_path(node_options: Seq<char>, cwd: Seq<char>) -> Option<Seq<char>> {
    match spec_node_options_map_path(node_options) {
        Some(p) => Some(
            if spec_is_absolute(p) {
                spec_normalize(p)
            } else {
                spec_join(cwd, p)
            },
        ),
        None => None,
    }
}

/// Extracts the last `--experimental-package-map` path from `NODE_OPTIONS`.
///
/// Tokenization follows Node's `ParseNodeOptionsEnvVar`: spaces separate arguments, double quotes
/// group text, and backslashes escape the following character inside quoted text. Both the
/// `--experimental-package-map=<path>` and `--experimental-package-map <path>` forms are accepted.
pub fn package_map_path_from_node_options(node_options: &str, cwd: &str) -> (r: Option<String>)
    ensures
        match spec_package_map_path(node_options@, cwd@) {
            Some(p) => r matches Some(s) && s@ == p,
            None => r is None,
        },
{
    match node_options::package_map_path_from_node_options(node_options) {
        Some(path) => {
            if is_absolute(path.as_str()) {
                Some(path.as_str().normalize())
            } else {
                Some(cwd.normalize_with(path.as_str()))
            }
        },
        None => None,
    }
}

/// Error returned by the path-based fallback in Node's package-map resolution algorithm.
#[derive(Debug, Clone, Copy, Eq, PartialEq, Structural)]
pub enum FindPackageIdError {
    /// Multiple package IDs resolve to the same owning package path.
    AmbiguousResolution,
    /// The importer path is not contained by any package location in the map.
    ExternalFile,
}

// ---------------------------------------------------------------------------------------------
// The stored entries
// ---------------------------------------------------------------------------------------------

/// One package entry: its ID, its `url`, and its `dependencies` (bare name, package ID) in
/// order.
pub struct PackageMapEntryData {
    pub id: String,
    pub url: String,
    pub dependencies: Vec<(String, String)>,
}

/// The mathematical counterpart of [`PackageMapEntryData`].
pub struct PackageEntryView {
    pub id: Seq<char>,
    pub url: Seq<char>,
    pub dependencies: Seq<(Seq<char>, Seq<char>)>,
}

pub open spec fn pairs_view(v: Seq<(String, String)>) -> Seq<(Seq<char>, Seq<char>)> {
    v.map_values(|p: (String, String)| (p.0@, p.1@))
}

impl View for PackageMapEntryData {
    type V = PackageEntryView;

    open spec fn view(&self) -> PackageEntryView {
        PackageEntryView { id: self.id@, url: self.url@, dependencies: pairs_view(self.dependencies@) }
    }
}

pub open spec fn entries_view(v: Seq<PackageMapEntryData>) -> Seq<PackageEntryView> {
    v.map_values(|e: PackageMapEntryData| e@)
}

/// The parsed package entries.
pub struct PackageMapData {
    pub packages: Vec<PackageMapEntryData>,
}

/// The index of the first pair whose name is `name`, or the number of pairs.
pub open spec fn spec_find_name(pairs: Seq<(Seq<char>, Seq<char>)>, name: Seq<char>) -> int
    decreases pairs.len(),
{
    if pairs.len() == 0 {
        0
    } else if pairs[0].0 == name {
        0
    } else {
        1 + spec_find_name(pairs.skip(1), name)
    }
}

pub proof fn lemma_find_name(pairs: Seq<(Seq<char>, Seq<char>)>, name: Seq<char>)
    ensures
        0 <= spec_find_name(pairs, name) <= pairs.len(),
        spec_find_name(pairs, name) < pairs.len() ==> pairs[spec_find_name(pairs, name)].0 == name,
        forall|k: int| 0 <= k < spec_find_name(pairs, name) ==> (#[trigger] pairs[k]).0 != name,
    decreases pairs.len(),
{
    if pairs.len() > 0 && pairs[0].0 != name {
        lemma_find_name(pairs.skip(1), name);
        assert forall|k: int| 0 <= k < spec_find_name(pairs, name) implies (#[trigger] pairs[k]).0 != name by {
            if k > 0 {
                assert(pairs[k] == pairs.skip(1)[k - 1]);
            }
        }
    }
}

/// The package ID that `dependencies` gives for the bare name `name`.
pub open spec fn spec_dependency(e: PackageEntryView, name: Seq<char>) -> Option<Seq<char>> {
    let i = spec_find_name(e.dependencies, name);
    if i < e.dependencies.len() {
        Some(e.dependencies[i].1)
    } else {
        None
    }
}

/// The index of the entry with the ID `id`, or the number of entries.
pub open spec fn spec_find_package(entries: Seq<PackageEntryView>, id: Seq<char>) -> int
    decreases entries.len(),
{
    if entries.len() == 0 {
        0
    } else if entries[0].id == id {
        0
    } else {
        1 + spec_find_package(entries.skip(1), id)
    }
}

pub proof fn lemma_find_package(entries: Seq<PackageEntryView>, id: Seq<char>)
    ensures
        0 <= spec_find_package(entries, id) <= entries.len(),
        spec_find_package(entries, id) < entries.len() ==> entries[spec_find_package(entries, id)].id == id,
        forall|k: int| 0 <= k < spec_find_package(entries, id) ==> (#[trigger] entries[k]).id != id,
    decreases entries.len(),
{
    if entries.len() > 0 && entries[0].id != id {
        lemma_find_package(entries.skip(1), id);
        assert forall|k: int| 0 <= k < spec_find_package(entries, id) implies (#[trigger] entries[k]).id != id by {
            if k > 0 {
                assert(entries[k] == entries.skip(1)[k - 1]);
            }
        }
    }
}

/// No two entries share an ID.
pub open spec fn ids_distinct(entries: Seq<PackageEntryView>) -> bool {
    forall|i: int, j: int|
        0 <= i < entries.len() && 0 <= j < entries.len() && i != j ==> (#[trigger] entries[i]).id
            != (#[trigger] entries[j]).id
}

/// Look a bare name up in an entry's `dependencies`.
fn find_dependency<'a>(e: &'a PackageMapEntryData, name: &str) -> (r: Option<&'a str>)
    ensures
        match spec_dependency(e@, name@) {
            Some(id) => r matches Some(s) && s@ == id,
            None => r is None,
        },
{
    let ghost pairs = pairs_view(e.dependencies@);
    proof {
        lemma_find_name(pairs, name@);
        assert(pairs.skip(0) =~= pairs);
    }
    let mut i: usize = 0;
    while i < e.dependencies.len()
        invariant
            i <= pairs.len(),
            pairs == pairs_view(e.dependencies@),
            spec_find_name(pairs, name@) == i + spec_find_name(pairs.skip(i as int), name@),
        decreases e.dependencies.len() - i,
    {
        proof {
            assert(pairs.skip(i as int)[0] == pairs[i as int]);
        }
        if str_eq(e.dependencies[i].0.as_str(), name) {
            return Some(e.dependencies[i].1.as_str());
        }
        proof {
            assert(pairs.skip(i as int).skip(1) =~= pairs.skip(i as int + 1));
        }
        i = i + 1;
    }
    None
}

/// The position of the entry with the ID `id`.
fn find_package(packages: &Vec<PackageMapEntryData>, id: &str) -> (r: Option<usize>)
    ensures
        match r {
            Some(k) => k == spec_find_package(entries_view(packages@), id@) && k < packages@.len(),
            None => spec_find_package(entries_view(packages@), id@) == packages@.len(),
        },
{
    let ghost es = entries_view(packages@);
    proof {
        lemma_find_package(es, id@);
        assert(es.skip(0) =~= es);
    }
    let mut i: usize = 0;
    while i < packages.len()
        invariant
            i <= es.len(),
            es == entries_view(packages@),
            spec_find_package(es, id@) == i + spec_find_package(es.skip(i as int), id@),
        decreases packages.len() - i,
    {
        proof {
            assert(es.skip(i as int)[0] == es[i as int]);
        }
        if str_eq(packages[i].id.as_str(), id) {
            return Some(i);
        }
        proof {
            assert(es.skip(i as int).skip(1) =~= es.skip(i as int + 1));
        }
        i = i + 1;
    }
    None
}

/// Storage for the parsed package entries.
pub trait PackageMapBackend {
    fn package(&self, package_id: &str) -> Option<&PackageMapEntryData>;
}

/// A package entry stored by a package map backend.
pub trait PackageMapEntryBackend {
    fn url(&self) -> &str;
    fn dependency(&self, specifier: &str) -> Option<&str>;
}

impl PackageMapBackend for PackageMapData {
    fn package(&self, package_id: &str) -> (r: Option<&PackageMapEntryData>)
        ensures
            ({
                let i = spec_find_package(entries_view(self.packages@), package_id@);
                if i < self.packages@.len() {
                    r == Some(&self.packages@[i])
                } else {
                    r is None
                }
            }),
    {
        match find_package(&self.packages, package_id) {
            Some(k) => Some(&self.packages[k]),
            None => None,
        }
    }
}

impl PackageMapEntryBackend for PackageMapEntryData {
    fn url(&self) -> (r: &str)
        ensures
            r@ == self.url@,
    {
        self.url.as_str()
    }

    fn dependency(&self, specifier: &str) -> (r: Option<&str>)
        ensures
            match spec_dependency(self@, specifier@) {
                Some(id) => r matches Some(s) && s@ == id,
                None => r is None,
            },
    {
        find_dependency(self, specifier)
    }
}

// ---------------------------------------------------------------------------------------------
// Reading the JSON document
// ---------------------------------------------------------------------------------------------

/// Every dependency of `d` names a package ID (a string).
pub open spec fn spec_valid_dependencies(d: JsonObject) -> bool {
    forall|k: int| 0 <= k < d.entries@.len() ==> (#[trigger] d.entries@[k]).1 is String
}

/// A package entry is an object with a string `url` and, optionally, a `dependencies` object of
/// strings.
pub open spec fn spec_valid_entry(v: JsonValue) -> bool {
    match v {
        JsonValue::Object(e) => {
            &&& spec_object_get(e, "url"@) matches Some(JsonValue::String(_))
            &&& match spec_object_get(e, "dependencies"@) {
                None => true,
                Some(JsonValue::Object(d)) => spec_valid_dependencies(d),
                Some(_) => false,
            }
        },
        _ => false,
    }
}

/// The top-level `packages` object, when the document is an object that has one.
pub open spec fn spec_packages_object(root: JsonValue) -> Option<JsonObject> {
    match root {
        JsonValue::Object(o) => match spec_object_get(o, "packages"@) {
            Some(JsonValue::Object(p)) => Some(p),
            _ => None,
        },
        _ => None,
    }
}

/// The shape that a package map must have.
pub open spec fn spec_valid_shape(root: JsonValue) -> bool {
    match spec_packages_object(root) {
        Some(p) => forall|k: int| 0 <= k < p.entries@.len() ==> spec_valid_entry(#[trigger] p.entries@[k].1),
        None => false,
    }
}

pub open spec fn string_text(v: JsonValue) -> Seq<char> {
    match v {
        JsonValue::String(s) => s@,
        _ => Seq::empty(),
    }
}

pub open spec fn spec_string_pairs(es: Seq<(String, JsonValue)>) -> Seq<(Seq<char>, Seq<char>)> {
    es.map_values(|p: (String, JsonValue)| (p.0@, string_text(p.1)))
}

/// The entry that the JSON value `v` of the package ID `id` describes.
pub open spec fn spec_entry_view(id: Seq<char>, v: JsonValue) -> PackageEntryView {
    match v {
        JsonValue::Object(e) => PackageEntryView {
            id,
            url: match spec_object_get(e, "url"@) {
                Some(u) => string_text(u),
                None => Seq::empty(),
            },
            dependencies: match spec_object_get(e, "dependencies"@) {
                Some(JsonValue::Object(d)) => spec_string_pairs(d.entries@),
                _ => Seq::empty(),
            },
        },
        _ => PackageEntryView { id, url: Seq::empty(), dependencies: Seq::empty() },
    }
}

/// The entries of the `packages` object in order; of two entries with one ID, the last one's
/// value counts, at the place of the first (as a JSON object read into a map keeps it).
pub open spec fn spec_records_of(es: Seq<(String, JsonValue)>) -> Seq<PackageEntryView>
    decreases es.len(),
{
    if es.len() == 0 {
        Seq::empty()
    } else {
        let prev = spec_records_of(es.drop_last());
        let k = spec_find_package(prev, es.last().0@);
        if k < prev.len() {
            prev.update(k, spec_entry_view(es.last().0@, es.last().1))
        } else {
            prev.push(spec_entry_view(es.last().0@, es.last().1))
        }
    }
}

pub proof fn lemma_records_distinct(es: Seq<(String, JsonValue)>)
    ensures
        ids_distinct(spec_records_of(es)),
    decreases es.len(),
{
    if es.len() > 0 {
        let prev = spec_records_of(es.drop_last());
        lemma_records_distinct(es.drop_last());
        lemma_find_package(prev, es.last().0@);
        let k = spec_find_package(prev, es.last().0@);
        if k < prev.len() {
            let next = prev.update(k, spec_entry_view(es.last().0@, es.last().1));
            assert forall|i: int| 0 <= i < next.len() implies (#[trigger] next[i]).id == prev[i].id by {}
        }
    }
}

fn has_valid_dependencies(d: &JsonObject) -> (r: bool)
    ensures
        r == spec_valid_dependencies(*d),
{
    let mut i: usize = 0;
    while i < d.entries.len()
        invariant
            i <= d.entries@.len(),
            forall|k: int| 0 <= k < i ==> (#[trigger] d.entries@[k]).1 is String,
        decreases d.entries.len() - i,
    {
        if d.entries[i].1.as_str().is_none() {
            return false;
        }
        i = i + 1;
    }
    true
}

fn is_valid_entry(v: &JsonValue) -> (r: bool)
    ensures
        r == spec_valid_entry(*v),
{
    let e = match v.as_object() {
        Some(e) => e,
        None => return false,
    };
    match e.get("url") {
        Some(u) => {
            if u.as_str().is_none() {
                return false;
            }
        },
        None => return false,
    }
    match e.get("dependencies") {
        None => true,
        Some(d) => match d.as_object() {
            Some(d) => has_valid_dependencies(d),
            None => false,
        },
    }
}

/// The `packages` object of the document.
fn packages_object(root: &JsonValue) -> (r: Option<&JsonObject>)
    ensures
        match spec_packages_object(*root) {
            Some(p) => r == Some(&p),
            None => r is None,
        },
{
    match root.as_object() {
        Some(o) => match o.get("packages") {
            Some(p) => p.as_object(),
            None => None,
        },
        None => None,
    }
}

/// Whether the document has the shape of a package map.
pub fn has_valid_shape(root: &JsonValue) -> (r: bool)
    ensures
        r == spec_valid_shape(*root),
{
    let packages = match packages_object(root) {
        Some(p) => p,
        None => return false,
    };
    let mut i: usize = 0;
    while i < packages.entries.len()
        invariant
            i <= packages.entries@.len(),
            spec_packages_object(*root) == Some(*packages),
            forall|k: int| 0 <= k < i ==> spec_valid_entry(#[trigger] packages.entries@[k].1),
        decreases packages.entries.len() - i,
    {
        if !is_valid_entry(&packages.entries[i].1) {
            proof {
                let p = spec_packages_object(*root)->Some_0;
                assert(p == *packages);
                assert(!spec_valid_entry(p.entries@[i as int].1));
            }
            return false;
        }
        i = i + 1;
    }
    true
}

/// The dependency pairs of an entry object, their values read as text.
fn dependency_pairs(e: &JsonObject) -> (r: Vec<(String, String)>)
    ensures
        pairs_view(r@) == match spec_object_get(*e, "dependencies"@) {
            Some(JsonValue::Object(d)) => spec_string_pairs(d.entries@),
            _ => Seq::empty(),
        },
{
    let mut dependencies: Vec<(String, String)> = Vec::new();
    let d = match e.get("dependencies") {
        Some(d) => match d.as_object() {
            Some(d) => d,
            None => return dependencies,
        },
        None => return dependencies,
    };
    let mut i: usize = 0;
    while i < d.entries.len()
        invariant
            i <= d.entries@.len(),
            pairs_view(dependencies@) == spec_string_pairs(d.entries@.take(i as int)),
        decreases d.entries.len() - i,
    {
        let value = match d.entries[i].1.as_str() {
            Some(s) => s.to_owned(),
            None => String::new(),
        };
        let ghost before = dependencies@;
        dependencies.push((d.entries[i].0.clone(), value));
        proof {
            assert(pairs_view(dependencies@) =~= pairs_view(before).push(
                (d.entries@[i as int].0@, string_text(d.entries@[i as int].1)),
            ));
            assert(d.entries@.take(i as int + 1) =~= d.entries@.take(i as int).push(d.entries@[i as int]));
            assert(spec_string_pairs(d.entries@.take(i as int + 1)) =~= spec_string_pairs(
                d.entries@.take(i as int),
            ).push((d.entries@[i as int].0@, string_text(d.entries@[i as int].1))));
        }
        i = i + 1;
    }
    proof {
        assert(d.entries@.take(d.entries@.len() as int) =~= d.entries@);
    }
    dependencies
}

/// The entry that the JSON value of the package ID `id` describes.
fn entry_data(id: &str, v: &JsonValue) -> (r: PackageMapEntryData)
    ensures
        r@ == spec_entry_view(id@, *v),
{
    match v.as_object() {
        Some(e) => {
            let url = match e.get("url") {
                Some(u) => match u.as_str() {
                    Some(s) => s.to_owned(),
                    None => String::new(),
                },
                None => String::new(),
            };
            let dependencies = dependency_pairs(e);
            PackageMapEntryData { id: id.to_owned(), url, dependencies }
        },
        None => {
            let r = PackageMapEntryData { id: id.to_owned(), url: String::new(), dependencies: Vec::new() };
            proof {
                assert(pairs_view(r.dependencies@) =~= Seq::<(Seq<char>, Seq<char>)>::empty());
            }
            r
        },
    }
}

/// The package entries of a `packages` object (see [`spec_records_of`]).
fn records_of(packages: &JsonObject) -> (r: PackageMapData)
    ensures
        entries_view(r.packages@) == spec_records_of(packages.entries@),
{
    let ghost es = packages.entries@;
    let mut out: Vec<PackageMapEntryData> = Vec::new();
    let mut i: usize = 0;
    proof {
        assert(es.take(0) =~= Seq::<(String, JsonValue)>::empty());
        assert(entries_view(out@) =~= Seq::<PackageEntryView>::empty());
    }
    while i < packages.entries.len()
        invariant
            i <= es.len(),
            es == packages.entries@,
            entries_view(out@) == spec_records_of(es.take(i as int)),
        decreases packages.entries.len() - i,
    {
        let key = packages.entries[i].0.as_str();
        proof {
            assert(es.take(i as int + 1).drop_last() =~= es.take(i as int));
            assert(es.take(i as int + 1).last() == es[i as int]);
        }
        let ghost before = out@;
        match find_package(&out, key) {
            None => {
                out.push(entry_data(key, &packages.entries[i].1));
                proof {
                    assert(entries_view(out@) =~= entries_view(before).push(spec_entry_view(key@, es[i as int].1)));
                }
            },
            Some(k) => {
                out.set(k, entry_data(key, &packages.entries[i].1));
                proof {
                    assert(entries_view(out@) =~= entries_view(before).update(
                        k as int,
                        spec_entry_view(key@, es[i as int].1),
                    ));
                }
            },
        }
        i = i + 1;
    }
    proof {
        assert(es.take(es.len() as int) =~= es);
    }
    PackageMapData { packages: out }
}

// ---------------------------------------------------------------------------------------------
// Package locations
// ---------------------------------------------------------------------------------------------

impl PackageMapData {
    /// Read the package entries of a parsed package-map document; `path` names the file in the
    /// error for a document that is not shaped like a package map.
    pub fn from_value(path: &str, root: &JsonValue) -> (r: Result<Self, JSONError>)
        ensures
            spec_valid_shape(*root) ==> (r matches Ok(d) && entries_view(d.packages@) == spec_records_of(
                spec_packages_object(*root)->Some_0.entries@,
            )),
            !spec_valid_shape(*root) ==> (r matches Err(e) && e.path@ == path@ && e.message@
                == shape_error_message() && e.line == 0 && e.column == 0),
            r matches Ok(d) ==> ids_distinct(entries_view(d.packages@)),
    {
        if !has_valid_shape(root) {
            return Err(JSONError {
                path: path.to_owned(),
                message: "package map must contain package entries with string URLs and dependencies".to_owned(),
                line: 0,
                column: 0,
            });
        }
        match packages_object(root) {
            Some(p) => {
                proof {
                    lemma_records_distinct(p.entries@);
                }
                Ok(records_of(p))
            },
            None => Err(JSONError { path: path.to_owned(), message: String::new(), line: 0, column: 0 }),
        }
    }
}

pub open spec fn shape_error_message() -> Seq<char> {
    "package map must contain package entries with string URLs and dependencies"@
}

/// Why the entry `e` cannot be a resolution target, when it cannot.
pub open spec fn spec_entry_problem(package_map_path: Seq<char>, e: PackageEntryView) -> Option<Seq<char>> {
    if e.url.len() == 0 {
        Some("package "@ + spec_debug_str(e.id) + " has an empty \"url\" field"@)
    } else {
        match spec_resolve_url(package_map_path, e.url) {
            Ok(_) => None,
            Err(reason) => Some("package "@ + spec_debug_str(e.id) + " has "@ + reason),
        }
    }
}

/// The index of the first entry with a problem, or the number of entries.
pub open spec fn spec_first_problem(package_map_path: Seq<char>, es: Seq<PackageEntryView>) -> int
    decreases es.len(),
{
    if es.len() == 0 {
        0
    } else if spec_entry_problem(package_map_path, es[0]) is Some {
        0
    } else {
        1 + spec_first_problem(package_map_path, es.skip(1))
    }
}

proof fn lemma_first_problem(package_map_path: Seq<char>, es: Seq<PackageEntryView>)
    ensures
        0 <= spec_first_problem(package_map_path, es) <= es.len(),
        spec_first_problem(package_map_path, es) < es.len() ==> spec_entry_problem(
            package_map_path,
            es[spec_first_problem(package_map_path, es)],
        ) is Some,
        forall|k: int|
            0 <= k < spec_first_problem(package_map_path, es) ==> spec_entry_problem(
                package_map_path,
                #[trigger] es[k],
            ) is None,
    decreases es.len(),
{
    if es.len() > 0 && spec_entry_problem(package_map_path, es[0]) is None {
        lemma_first_problem(package_map_path, es.skip(1));
        assert forall|k: int| 0 <= k < spec_first_problem(package_map_path, es) implies spec_entry_problem(
            package_map_path,
            #[trigger] es[k],
        ) is None by {
            if k > 0 {
                assert(es[k] == es.skip(1)[k - 1]);
            }
        }
    }
}

/// The location of each entry.
pub open spec fn spec_locations(package_map_path: Seq<char>, es: Seq<PackageEntryView>) -> Seq<Seq<char>> {
    es.map_values(|e: PackageEntryView| spec_resolve_url(package_map_path, e.url)->Ok_0)
}

pub open spec fn ids_of(es: Seq<PackageEntryView>) -> Seq<Seq<char>> {
    es.map_values(|e: PackageEntryView| e.id)
}

/// The number of entries located at the path with the components `cs`.
pub open spec fn spec_count_at(locs: Seq<Seq<char>>, cs: Seq<PathComponent>) -> nat
    decreases locs.len(),
{
    if locs.len() == 0 {
        0
    } else {
        (if spec_components(locs[0]) == cs {
            1nat
        } else {
            0nat
        }) + spec_count_at(locs.skip(1), cs)
    }
}

/// The index of the first entry located at the path with the components `cs`.
pub open spec fn spec_first_at(locs: Seq<Seq<char>>, cs: Seq<PathComponent>) -> int
    decreases locs.len(),
{
    if locs.len() == 0 {
        0
    } else if spec_components(locs[0]) == cs {
        0
    } else {
        1 + spec_first_at(locs.skip(1), cs)
    }
}

/// The nearest of the path `cs` and its ancestors at which some entry is located.
pub open spec fn spec_find_owner(locs: Seq<Seq<char>>, cs: Seq<PathComponent>) -> Option<Seq<PathComponent>>
    decreases cs.len(),
{
    if spec_count_at(locs, cs) > 0 {
        Some(cs)
    } else if cs.len() == 0 || cs.last() == PathComponent::RootDir {
        None
    } else {
        spec_find_owner(locs, cs.drop_last())
    }
}

/// The components that the owner lookup walks up from: those of `path`, normalized first when
/// `path` has a `..` component.
pub open spec fn spec_lookup_components(path: Seq<char>) -> Seq<PathComponent> {
    let cs = spec_components(path);
    if exists|i: int| 0 <= i < cs.len() && #[trigger] cs[i] == PathComponent::ParentDir {
        spec_components(spec_normalize(path))
    } else {
        cs
    }
}

/// `FIND_PACKAGE_ID(path)`: the ID of the only entry located at the nearest ancestor of `path`
/// (`path` included) where any entry is located.
pub open spec fn spec_find_package_id(locs: Seq<Seq<char>>, ids: Seq<Seq<char>>, path: Seq<char>) -> Result<Seq<char>, FindPackageIdError> {
    match spec_find_owner(locs, spec_lookup_components(path)) {
        None => Err(FindPackageIdError::ExternalFile),
        Some(owner) => if spec_count_at(locs, owner) == 1 {
            Ok(ids[spec_first_at(locs, owner)])
        } else {
            Err(FindPackageIdError::AmbiguousResolution)
        },
    }
}

proof fn lemma_first_at(locs: Seq<Seq<char>>, cs: Seq<PathComponent>)
    ensures
        0 <= spec_first_at(locs, cs) <= locs.len(),
        spec_count_at(locs, cs) > 0 <==> spec_first_at(locs, cs) < locs.len(),
        spec_first_at(locs, cs) < locs.len() ==> spec_components(locs[spec_first_at(locs, cs)]) == cs,
    decreases locs.len(),
{
    if locs.len() > 0 {
        lemma_first_at(locs.skip(1), cs);
    }
}

/// Parsed Node.js package map and its resolved package-location index.
///
/// This represents the specification's top-level `packages` object.
pub struct PackageMap {
    /// Configured package-map path, used for diagnostics and dependency tracking.
    path: String,
    /// The effective location that entry URLs are resolved from.
    realpath: Ghost<Seq<char>>,
    /// Package entries, with distinct IDs.
    store: PackageMapData,
    /// The resolved location of each entry, by position.
    package_paths: Vec<String>,
    /// The components of each resolved location, by position.
    locations: Vec<Vec<Component>>,
}

impl PackageMap {
    #[verifier::type_invariant]
    spec fn well_formed(self) -> bool {
        let es = entries_view(self.store.packages@);
        &&& ids_distinct(es)
        &&& self.package_paths@.len() == es.len()
        &&& self.locations@.len() == es.len()
        &&& forall|k: int|
            0 <= k < es.len() ==> spec_resolve_url(self.realpath@, es[k].url) == Ok::<Seq<char>, Seq<char>>(
                (#[trigger] self.package_paths@[k])@,
            )
        &&& forall|k: int|
            0 <= k < es.len() ==> components_view((#[trigger] self.locations@[k])@) == spec_components(
                self.package_paths@[k]@,
            )
    }

    /// The package-map path.
    pub closed spec fn map_path(self) -> Seq<char> {
        self.path@
    }

    /// The package entries.
    pub closed spec fn entries(self) -> Seq<PackageEntryView> {
        entries_view(self.store.packages@)
    }

    /// The resolved location of each entry, by position.
    pub closed spec fn locations(self) -> Seq<Seq<char>> {
        self.package_paths@.map_values(|p: String| p@)
    }

    /// Build the location index of the entries of `store`, whose URLs are resolved from
    /// `realpath`. The first entry, in order, whose `url` is empty or does not resolve makes the
    /// package map invalid.
    pub fn new(path: String, realpath: &str, store: PackageMapData) -> (r: Result<Self, ResolveError>)
        requires
            ids_distinct(entries_view(store.packages@)),
        ensures
            ({
                let es = entries_view(store.packages@);
                let k = spec_first_problem(realpath@, es);
                if k < es.len() {
                    r matches Err(ResolveError::PackageMapInvalid { package_map_path: p, reason })
                        && p@ == path@ && Some(reason@) == spec_entry_problem(realpath@, es[k])
                } else {
                    r matches Ok(m) && m.map_path() == path@ && m.entries() == es && m.locations()
                        == spec_locations(realpath@, es)
                }
            }),
    {
        let ghost es = entries_view(store.packages@);
        proof {
            lemma_first_problem(realpath@, es);
            assert(es.skip(0) =~= es);
        }
        let mut package_paths: Vec<String> = Vec::new();
        let mut locations: Vec<Vec<Component>> = Vec::new();
        let mut i: usize = 0;
        while i < store.packages.len()
            invariant
                i <= es.len(),
                es == entries_view(store.packages@),
                package_paths@.len() == i,
                locations@.len() == i,
                spec_first_problem(realpath@, es) >= i,
                forall|k: int|
                    0 <= k < i ==> spec_resolve_url(realpath@, es[k].url) == Ok::<Seq<char>, Seq<char>>(
                        (#[trigger] package_paths@[k])@,
                    ),
                forall|k: int|
                    0 <= k < i ==> components_view((#[trigger] locations@[k])@) == spec_components(
                        package_paths@[k]@,
                    ),
            decreases store.packages.len() - i,
        {
            let entry = &store.packages[i];
            proof {
                lemma_first_problem(realpath@, es);
            }
            if entry.url.as_str().is_empty() {
                proof {
                    assert(entry.url@.len() == 0);
                    assert(spec_first_problem(realpath@, es) == i) by {
                        assert(spec_entry_problem(realpath@, es[i as int]) is Some);
                    }
                }
                let reason = "package ".to_owned().concat(debug_str(entry.id.as_str()).as_str()).concat(
                    " has an empty \"url\" field",
                );
                return Err(ResolveError::PackageMapInvalid { package_map_path: path, reason });
            }
            match resolve_url_from(realpath, entry.url.as_str()) {
                Ok(p) => {
                    let cs = components(p.as_str());
                    package_paths.push(p);
                    locations.push(cs);
                },
                Err(why) => {
                    proof {
                        assert(entry.url@.len() != 0);
                        assert(spec_first_problem(realpath@, es) == i) by {
                            assert(spec_entry_problem(realpath@, es[i as int]) is Some);
                        }
                    }
                    let reason = "package ".to_owned().concat(debug_str(entry.id.as_str()).as_str()).concat(
                        " has ",
                    ).concat(why.as_str());
                    return Err(ResolveError::PackageMapInvalid { package_map_path: path, reason });
                },
            }
            i = i + 1;
        }
        let r = PackageMap { path, realpath: Ghost(realpath@), store, package_paths, locations };
        proof {
            assert(r.locations() =~= spec_locations(realpath@, es));
        }
        Ok(r)
    }

    /// Returns the path where `.package-map.json` was found.
    pub fn path(&self) -> (r: &str)
        ensures
            r@ == self.map_path(),
    {
        self.path.as_str()
    }

    /// Returns the entry for an opaque package ID from the top-level `packages` object.
    pub fn package<'a>(&'a self, package_id: &str) -> (r: Option<PackageMapEntryGeneric<'a>>)
        ensures
            ({
                let i = spec_find_package(self.entries(), package_id@);
                if i < self.entries().len() {
                    r matches Some(e) && e.entry@ == self.entries()[i] && e.path@ == self.locations()[i]
                } else {
                    r is None
                }
            }),
    {
        proof {
            use_type_invariant(self);
        }
        match find_package(&self.store.packages, package_id) {
            Some(k) => Some(
                PackageMapEntryGeneric { entry: &self.store.packages[k], path: self.package_paths[k].as_str() },
            ),
            None => None,
        }
    }

    /// The number of entries located at the path `comps[..n]`, and the first of them.
    fn count_at(&self, comps: &Vec<Component>, n: usize) -> (r: (usize, usize))
        requires
            n <= comps@.len(),
        ensures
            r.0 == spec_count_at(self.locations(), components_view(comps@).take(n as int)),
            r.0 > 0 ==> r.1 == spec_first_at(self.locations(), components_view(comps@).take(n as int)),
    {
        proof {
            use_type_invariant(self);
        }
        let ghost locs = self.locations();
        let ghost cs = components_view(comps@).take(n as int);
        let mut count: usize = 0;
        let mut first: usize = 0;
        let mut i: usize = 0;
        proof {
            assert(locs.skip(0) =~= locs);
        }
        while i < self.locations.len()
            invariant
                i <= locs.len(),
                locs == self.locations(),
                locs.len() == self.locations@.len(),
                n <= comps@.len(),
                cs == components_view(comps@).take(n as int),
                forall|k: int|
                    0 <= k < locs.len() ==> components_view((#[trigger] self.locations@[k])@) == spec_components(locs[k]),
                count <= i,
                spec_count_at(locs, cs) == count + spec_count_at(locs.skip(i as int), cs),
                count == 0 ==> spec_first_at(locs, cs) == i + spec_first_at(locs.skip(i as int), cs),
                count > 0 ==> first == spec_first_at(locs, cs),
            decreases self.locations.len() - i,
        {
            proof {
                assert(locs.skip(i as int)[0] == locs[i as int]);
                assert(locs.skip(i as int).skip(1) =~= locs.skip(i as int + 1));
            }
            if prefix_eq(&self.locations[i], comps, n) {
                if count == 0 {
                    first = i;
                }
                count = count + 1;
            }
            i = i + 1;
        }
        (count, first)
    }

    /// Implements the path-based fallback for determining which package owns an importer.
    ///
    /// The nearest ancestor present in the resolved-path index owns `path`. If multiple package
    /// IDs resolve to that ancestor, this returns [`FindPackageIdError::AmbiguousResolution`]. If
    /// no mapped package contains `path`, it returns [`FindPackageIdError::ExternalFile`].
    ///
    /// This corresponds to `FIND_PACKAGE_ID(PATH, PACKAGE_MAP)` in Node's CommonJS resolution
    /// pseudocode.
    pub fn find_package_id<'a>(&'a self, path: &str) -> (r: Result<&'a str, FindPackageIdError>)
        ensures
            match spec_find_package_id(self.locations(), ids_of(self.entries()), path@) {
                Ok(id) => r matches Ok(s) && s@ == id,
                Err(e) => r == Err::<&str, FindPackageIdError>(e),
            },
    {
        proof {
            use_type_invariant(self);
        }
        let ghost locs = self.locations();
        let written = components(path);
        let comps = if has_parent_dir(&written) {
            components(path.normalize().as_str())
        } else {
            written
        };
        let ghost full = components_view(comps@);
        proof {
            assert(full == spec_lookup_components(path@));
        }
        let mut n: usize = comps.len();
        proof {
            assert(full.take(n as int) =~= full);
        }
        loop
            invariant
                n <= comps@.len(),
                full == components_view(comps@),
                full == spec_lookup_components(path@),
                locs == self.locations(),
                locs.len() == self.store.packages@.len(),
                spec_find_owner(locs, full) == spec_find_owner(locs, full.take(n as int)),
            decreases n,
        {
            let (count, first) = self.count_at(&comps, n);
            if count > 0 {
                if count == 1 {
                    proof {
                        lemma_first_at(locs, full.take(n as int));
                        assert(ids_of(self.entries())[first as int] == self.store.packages@[first as int].id@);
                    }
                    return Ok(self.store.packages[first].id.as_str());
                }
                return Err(FindPackageIdError::AmbiguousResolution);
            }
            if n == 0 {
                return Err(FindPackageIdError::ExternalFile);
            }
            proof {
                assert(full.take(n as int).last() == comps@[n - 1]@);
            }
            if let Component::RootDir = &comps[n - 1] {
                return Err(FindPackageIdError::ExternalFile);
            }
            proof {
                assert(full.take(n as int).drop_last() =~= full.take(n as int - 1));
            }
            n = n - 1;
        }
    }

    /// The owner of the importer directory `parent_path` (step 6.a of Node's resolution with a
    /// package map), its failures turned into resolution errors for `specifier`.
    pub fn importer_package_id<'a>(&'a self, specifier: &str, parent_path: &str) -> (r: Result<&'a str, ResolveError>)
        ensures
            match spec_find_package_id(self.locations(), ids_of(self.entries()), parent_path@) {
                Ok(id) => r matches Ok(s) && s@ == id,
                Err(FindPackageIdError::AmbiguousResolution) => r matches Err(
                    ResolveError::PackageMapAmbiguousResolution { specifier: s, parent_path: p, package_map_path: m },
                ) && s@ == specifier@ && p@ == parent_path@ && m@ == self.map_path(),
                Err(FindPackageIdError::ExternalFile) => r matches Err(
                    ResolveError::PackageMapExternalFile { specifier: s, parent_path: p, package_map_path: m },
                ) && s@ == specifier@ && p@ == parent_path@ && m@ == self.map_path(),
            },
    {
        match self.find_package_id(parent_path) {
            Ok(id) => Ok(id),
            Err(FindPackageIdError::AmbiguousResolution) => Err(
                ResolveError::PackageMapAmbiguousResolution {
                    specifier: specifier.to_owned(),
                    parent_path: parent_path.to_owned(),
                    package_map_path: self.path.clone(),
                },
            ),
            Err(FindPackageIdError::ExternalFile) => Err(
                ResolveError::PackageMapExternalFile {
                    specifier: specifier.to_owned(),
                    parent_path: parent_path.to_owned(),
                    package_map_path: self.path.clone(),
                },
            ),
        }
    }

    /// Steps 2 to 6 of `LOAD_PACKAGE_MAP(X, PARENT_PACKAGE_ID, PACKAGE_MAP)`: the location of the
    /// package that the entry of `parent_package_id` maps the bare name `name` to. A missing
    /// dependency and a dependency on an unknown ID are "not found" for `specifier`.
    pub fn dependency_path<'a>(&'a self, specifier: &str, name: &str, parent_package_id: &str) -> (r: Result<&'a str, ResolveError>)
        requires
            spec_find_package(self.entries(), parent_package_id@) < self.entries().len(),
        ensures
            match spec_dependency(self.entries()[spec_find_package(self.entries(), parent_package_id@)], name@) {
                Some(dep) => {
                    let t = spec_find_package(self.entries(), dep);
                    if t < self.entries().len() {
                        r matches Ok(p) && p@ == self.locations()[t]
                    } else {
                        r matches Err(ResolveError::NotFound(s)) && s@ == specifier@
                    }
                },
                None => r matches Err(ResolveError::NotFound(s)) && s@ == specifier@,
            },
    {
        let parent_package = match self.package(parent_package_id) {
            Some(p) => p,
            None => return Err(ResolveError::NotFound(specifier.to_owned())),
        };
        let dependency_id = match parent_package.dependency(name) {
            Some(d) => d,
            None => return Err(ResolveError::NotFound(specifier.to_owned())),
        };
        match self.package(dependency_id) {
            Some(target) => Ok(target.path()),
            None => Err(ResolveError::NotFound(specifier.to_owned())),
        }
    }
}

/// Whether some component is `..`.
fn has_parent_dir(comps: &Vec<Component>) -> (r: bool)
    ensures
        r == exists|i: int| 0 <= i < comps@.len() && #[trigger] components_view(comps@)[i] == PathComponent::ParentDir,
{
    let mut i: usize = 0;
    while i < comps.len()
        invariant
            i <= comps@.len(),
            forall|k: int| 0 <= k < i ==> components_view(comps@)[k] != PathComponent::ParentDir,
        decreases comps.len() - i,
    {
        if let Component::ParentDir = &comps[i] {
            proof {
                assert(components_view(comps@)[i as int] == PathComponent::ParentDir);
            }
            return true;
        }
        i = i + 1;
    }
    false
}

proof fn lemma_count_positive(locs: Seq<Seq<char>>, cs: Seq<PathComponent>, k: int)
    ensures
        0 <= k < locs.len() && spec_components(locs[k]) == cs ==> spec_count_at(locs, cs) > 0,
    decreases locs.len(),
{
    if locs.len() > 0 && k > 0 {
        lemma_count_positive(locs.skip(1), cs, k - 1);
        assert(0 <= k < locs.len() ==> locs.skip(1)[k - 1] == locs[k]);
    }
}

proof fn lemma_single_first_at(locs: Seq<Seq<char>>, cs: Seq<PathComponent>, k: int)
    requires
        0 <= k < locs.len(),
        spec_components(locs[k]) == cs,
        spec_count_at(locs, cs) == 1,
    ensures
        spec_first_at(locs, cs) == k,
    decreases locs.len(),
{
    lemma_count_positive(locs.skip(1), cs, k - 1);
    if k > 0 {
        assert(locs.skip(1)[k - 1] == locs[k]);
        if spec_components(locs[0]) != cs {
            lemma_single_first_at(locs.skip(1), cs, k - 1);
        }
    }
}

/// A package's own location (a path without `..`) is owned by that package, unless another
/// package ID is located there too, in which case the location is ambiguous.
pub proof fn law_package_owns_its_location(locs: Seq<Seq<char>>, ids: Seq<Seq<char>>, k: int)
    requires
        0 <= k < locs.len(),
        forall|i: int|
            0 <= i < spec_components(locs[k]).len() ==> #[trigger] spec_components(locs[k])[i]
                != PathComponent::ParentDir,
    ensures
        spec_count_at(locs, spec_components(locs[k])) == 1 ==> spec_find_package_id(locs, ids, locs[k])
            == Ok::<Seq<char>, FindPackageIdError>(ids[k]),
        spec_count_at(locs, spec_components(locs[k])) > 1 ==> spec_find_package_id(locs, ids, locs[k])
            == Err::<Seq<char>, FindPackageIdError>(FindPackageIdError::AmbiguousResolution),
{
    let cs = spec_components(locs[k]);
    assert(spec_lookup_components(locs[k]) == cs);
    lemma_count_positive(locs, cs, k);
    if spec_count_at(locs, cs) == 1 {
        lemma_single_first_at(locs, cs, k);
    }
}

/// Whether the components of `loc` are `comps[..n]`.
fn prefix_eq(loc: &Vec<Component>, comps: &Vec<Component>, n: usize) -> (r: bool)
    requires
        n <= comps@.len(),
    ensures
        r == (components_view(loc@) == components_view(comps@).take(n as int)),
{
    if loc.len() != n {
        proof {
            assert(components_view(loc@).len() != components_view(comps@).take(n as int).len());
        }
        return false;
    }
    let mut i: usize = 0;
    while i < n
        invariant
            i <= n,
            n == loc@.len(),
            n <= comps@.len(),
            forall|k: int| 0 <= k < i ==> loc@[k]@ == comps@[k]@,
        decreases n - i,
    {
        if !component_eq(&loc[i], &comps[i]) {
            proof {
                assert(components_view(loc@)[i as int] != components_view(comps@).take(n as int)[i as int]);
            }
            return false;
        }
        i = i + 1;
    }
    proof {
        assert(components_view(loc@) =~= components_view(comps@).take(n as int));
    }
    true
}

/// One package entry from the package map's top-level `packages` object.
pub struct PackageMapEntryGeneric<'a> {
    pub entry: &'a PackageMapEntryData,
    pub path: &'a str,
}

impl<'a> PackageMapEntryGeneric<'a> {
    /// Returns the resolved file path.
    pub fn path(&self) -> (r: &'a str)
        ensures
            r == self.path,
    {
        self.path
    }

    /// Looks up a bare package name in `dependencies` and returns its target package ID.
    ///
    /// A missing `dependencies` object behaves as an empty object.
    pub fn dependency(&self, specifier: &str) -> (r: Option<&'a str>)
        ensures
            match spec_dependency(self.entry@, specifier@) {
                Some(id) => r matches Some(s) && s@ == id,
                None => r is None,
            },
    {
        find_dependency(self.entry, specifier)
    }
}


/// The dependency that loading the package map at `package_map_path` leaves in `ctx`: the map
/// file when it loaded (`error` is `None`); the file that failed to parse, or the map file that
/// is not a valid map; for any other failure (the file could not be read) the map file as a
/// missing dependency.
pub open spec fn package_map_dependency(package_map_path: Seq<char>, error: Option<ResolveError>) -> (bool, Seq<char>) {
    match error {
        None => (true, package_map_path),
        Some(ResolveError::Json(e)) => (true, e.path@),
        Some(ResolveError::PackageMapInvalid { package_map_path: p, .. }) => (true, p@),
        Some(_) => (false, package_map_path),
    }
}

/// Records the dependency that loading the package map leaves (see
/// [`package_map_dependency`]): the first of the pair says whether it is a file dependency (or
/// a missing one), the second is its path.
pub fn record_package_map_load(ctx: &mut ResolveContext, package_map_path: &str, error: Option<&ResolveError>)
    ensures
        same_but_dependencies(*old(ctx), *final(ctx)),
        ({
            let (found, dep) = package_map_dependency(
                package_map_path@,
                match error {
                    Some(e) => Some(*e),
                    None => None,
                },
            );
            &&& found ==> recorded(old(ctx).file_dependencies, final(ctx).file_dependencies, dep)
                && final(ctx).missing_dependencies == old(ctx).missing_dependencies
            &&& !found ==> recorded(old(ctx).missing_dependencies, final(ctx).missing_dependencies, dep)
                && final(ctx).file_dependencies == old(ctx).file_dependencies
        }),
{
    match error {
        None => ctx.add_file_dependency(package_map_path),
        Some(ResolveError::Json(e)) => ctx.add_file_dependency(e.path.as_str()),
        Some(ResolveError::PackageMapInvalid { package_map_path: p, .. }) => ctx.add_file_dependency(p.as_str()),
        Some(_) => ctx.add_missing_dependency(package_map_path),
    }
}

} // verus!
