//! `package.json` definitions: field access over the parsed document, the `imports`/`exports`
//! views and the `"browser"` field.
pub mod browser;

use vstd::prelude::*;

use crate::error::{JSONError, ResolveError};
use crate::json::{
    get_value_by_path, spec_get_value_by_path, spec_object_get, str_eq, JsonObject, JsonValue,
};
use crate::path::{
    file_name, parent, same_path, spec_components, spec_file_name, spec_join, spec_parent, PathUtil,
};

verus! {

broadcast use vstd::string::group_string_axioms;

#[derive(Clone, Copy, Debug, PartialEq, Eq, Structural)]
pub enum PackageType {
    CommonJs,
    Module,
}

pub open spec fn commonjs_chars() -> Seq<char> {
    seq!['c', 'o', 'm', 'm', 'o', 'n', 'j', 's']
}

pub open spec fn module_chars() -> Seq<char> {
    seq!['m', 'o', 'd', 'u', 'l', 'e']
}

pub open spec fn spec_package_type(s: Seq<char>) -> Option<PackageType> {
    if s == commonjs_chars() {
        Some(PackageType::CommonJs)
    } else if s == module_chars() {
        Some(PackageType::Module)
    } else {
        None
    }
}

impl PackageType {
    /// `"commonjs"` or `"module"`.
    pub fn from_str(s: &str) -> (r: Option<Self>)
        ensures
            r == spec_package_type(s@),
    {
        proof {
            reveal_strlit("commonjs");
            reveal_strlit("module");
            assert("commonjs"@ =~= commonjs_chars());
            assert("module"@ =~= module_chars());
        }
        if str_eq(s, "commonjs") {
            Some(Self::CommonJs)
        } else if str_eq(s, "module") {
            Some(Self::Module)
        } else {
            None
        }
    }
}

#[derive(Clone, Copy, Debug, PartialEq, Eq, Structural)]
pub enum ImportsExportsKind {
    String,
    Array,
    Object,
    Invalid,
}

pub open spec fn spec_kind(v: JsonValue) -> ImportsExportsKind {
    match v {
        JsonValue::String(_) => ImportsExportsKind::String,
        JsonValue::Array(_) => ImportsExportsKind::Array,
        JsonValue::Object(_) => ImportsExportsKind::Object,
        _ => ImportsExportsKind::Invalid,
    }
}

/// The `"sideEffects"` field.
#[derive(Debug, Clone, PartialEq, Eq)]
pub enum SideEffects<'a> {
    Bool(bool),
    String(&'a str),
    Array(Vec<&'a str>),
}

/// ASCII whitespace as `u8::is_ascii_whitespace` defines it.
pub open spec fn is_json_whitespace(b: u8) -> bool {
    b == 0x20u8 || b == 0x09u8 || b == 0x0Au8 || b == 0x0Cu8 || b == 0x0Du8
}

pub open spec fn empty_file_message() -> Seq<char> {
    seq!['F', 'i', 'l', 'e', ' ', 'i', 's', ' ', 'e', 'm', 'p', 't', 'y']
}

/// Check if JSON content is empty or contains only whitespace.
pub fn check_if_empty(json_bytes: &[u8], path: &str) -> (r: Result<(), JSONError>)
    ensures
        r is Ok <==> exists|i: int| 0 <= i < json_bytes@.len() && !is_json_whitespace(#[trigger] json_bytes@[i]),
        r matches Err(e) ==> e.path@ == path@ && e.message@ == empty_file_message() && e.line == 0
            && e.column == 0,
{
    let mut i: usize = 0;
    while i < json_bytes.len()
        invariant
            i <= json_bytes@.len(),
            forall|k: int| 0 <= k < i ==> is_json_whitespace(#[trigger] json_bytes@[k]),
        decreases json_bytes.len() - i,
    {
        let b = json_bytes[i];
        if !(b == 0x20u8 || b == 0x09u8 || b == 0x0Au8 || b == 0x0Cu8 || b == 0x0Du8) {
            return Ok(());
        }
        i = i + 1;
    }
    proof {
        reveal_strlit("File is empty");
        assert("File is empty"@ =~= empty_file_message());
    }
    Err(JSONError { path: path.to_owned(), message: "File is empty".to_owned(), line: 0, column: 0 })
}

/// Replaces a leading UTF-8 byte order mark with spaces, so that offsets in the text stay put.
pub fn replace_bom_with_whitespace(bytes: &mut Vec<u8>)
    ensures
        final(bytes)@.len() == old(bytes)@.len(),
        (old(bytes)@.len() >= 3 && old(bytes)@[0] == 0xEFu8 && old(bytes)@[1] == 0xBBu8 && old(bytes)@[2] == 0xBFu8)
            ==> final(bytes)@ == seq![0x20u8, 0x20u8, 0x20u8] + old(bytes)@.skip(3),
        !(old(bytes)@.len() >= 3 && old(bytes)@[0] == 0xEFu8 && old(bytes)@[1] == 0xBBu8 && old(bytes)@[2] == 0xBFu8)
            ==> final(bytes)@ == old(bytes)@,
{
    if bytes.len() >= 3 && bytes[0] == 0xEF && bytes[1] == 0xBB && bytes[2] == 0xBF {
        bytes.set(0, 0x20);
        bytes.set(1, 0x20);
        bytes.set(2, 0x20);
        proof {
            assert(bytes@ =~= seq![0x20u8, 0x20u8, 0x20u8] + old(bytes)@.skip(3));
        }
    }
}

/// The value of the top-level field `key`.
pub open spec fn spec_field(root: JsonValue, key: Seq<char>) -> Option<JsonValue> {
    match root {
        JsonValue::Object(o) => spec_object_get(o, key),
        _ => None,
    }
}

/// The text of the top-level field `key`, when it is a string.
pub open spec fn spec_field_str(root: JsonValue, key: Seq<char>) -> Option<Seq<char>> {
    match spec_field(root, key) {
        Some(JsonValue::String(s)) => Some(s@),
        _ => None,
    }
}

pub open spec fn opt_str_view(r: Option<&str>) -> Option<Seq<char>> {
    match r {
        Some(s) => Some(s@),
        None => None,
    }
}

pub open spec fn strs_view(v: Seq<&str>) -> Seq<Seq<char>> {
    v.map_values(|s: &str| s@)
}

/// The string values of the `names` fields, in order, skipping fields that are missing or
/// not strings.
pub open spec fn spec_main_fields(root: JsonValue, names: Seq<String>) -> Seq<Seq<char>>
    decreases names.len(),
{
    if names.len() == 0 {
        Seq::empty()
    } else {
        spec_main_fields(root, names.drop_last()) + match spec_field_str(root, names.last()@) {
            Some(s) => seq![s],
            None => Seq::empty(),
        }
    }
}

/// The values found at each key path, in order, skipping paths that lead nowhere.
pub open spec fn spec_values_at_paths(root: JsonValue, paths: Seq<Vec<String>>) -> Seq<JsonValue>
    decreases paths.len(),
{
    if paths.len() == 0 {
        Seq::empty()
    } else {
        spec_values_at_paths(root, paths.drop_last()) + match root {
            JsonValue::Object(o) => match spec_get_value_by_path(o, paths.last()@) {
                Some(v) => seq![v],
                None => Seq::empty(),
            },
            _ => Seq::empty(),
        }
    }
}

/// The objects found at each key path, in order, skipping paths that lead nowhere or to a
/// value that is not an object.
pub open spec fn spec_objects_at_paths(root: JsonValue, paths: Seq<Vec<String>>) -> Seq<JsonObject>
    decreases paths.len(),
{
    if paths.len() == 0 {
        Seq::empty()
    } else {
        spec_objects_at_paths(root, paths.drop_last()) + match root {
            JsonValue::Object(o) => match spec_get_value_by_path(o, paths.last()@) {
                Some(JsonValue::Object(found)) => seq![found],
                _ => Seq::empty(),
            },
            _ => Seq::empty(),
        }
    }
}

/// The entries of all `objects`, object after object.
pub open spec fn spec_flatten(objects: Seq<JsonObject>) -> Seq<(String, JsonValue)>
    decreases objects.len(),
{
    if objects.len() == 0 {
        Seq::empty()
    } else {
        spec_flatten(objects.drop_last()) + objects.last().entries@
    }
}

/// What a `"browser"` value means: a string is the replacement (`Some(Some(..))`), `false`
/// means the request is ignored (`None`), anything else is no mapping (`Some(None)`).
pub open spec fn spec_alias_value(v: JsonValue) -> Option<Option<Seq<char>>> {
    match v {
        JsonValue::String(s) => Some(Some(s@)),
        JsonValue::Bool(false) => None,
        _ => Some(None),
    }
}

/// The result a `"browser"` value gives for `key`.
pub open spec fn spec_alias_result(key: Seq<char>, v: JsonValue, r: Result<Option<&str>, ResolveError>) -> bool {
    match spec_alias_value(v) {
        Some(Some(s)) => r matches Ok(Some(t)) && t@ == s,
        Some(None) => r matches Ok(None),
        None => r matches Err(e) && e matches ResolveError::Ignored(p) && p@ == key,
    }
}

/// Interpret a `"browser"`/alias-field value: a string is the replacement, `false` means the
/// request is ignored, anything else is "no mapping".
pub fn alias_value<'a>(key: &str, value: &'a JsonValue) -> (r: Result<Option<&'a str>, ResolveError>)
    ensures
        spec_alias_result(key@, *value, r),
{
    if let Some(s) = value.as_str() {
        return Ok(Some(s));
    }
    match value.as_bool() {
        Some(false) => Err(ResolveError::Ignored(key.to_owned())),
        _ => Ok(None),
    }
}

/// The index of the first object that has the key `request`, or the number of objects.
pub open spec fn spec_first_with_key(objects: Seq<JsonObject>, request: Seq<char>) -> int
    decreases objects.len(),
{
    if objects.len() == 0 {
        0
    } else if spec_object_get(objects[0], request) is Some {
        0
    } else {
        1 + spec_first_with_key(objects.skip(1), request)
    }
}

/// A `"browser"` key that maps onto the already-resolved `path`: its package-relative path
/// joined onto the package directory `dir` is `path`. A key whose file name differs from the
/// file name of `path` is passed over.
pub open spec fn browser_key_matches(dir: Seq<char>, key: Seq<char>, path: Seq<char>) -> bool {
    !(spec_file_name(key) is Some && spec_file_name(key) != spec_file_name(path))
        && spec_components(spec_join(dir, key)) == spec_components(path)
}

/// The index of the first entry whose key maps onto `path`, or the number of entries.
pub open spec fn spec_first_match(entries: Seq<(String, JsonValue)>, dir: Seq<char>, path: Seq<char>) -> int
    decreases entries.len(),
{
    if entries.len() == 0 {
        0
    } else if browser_key_matches(dir, entries[0].0@, path) {
        0
    } else {
        1 + spec_first_match(entries.skip(1), dir, path)
    }
}

/// The `"browser"` value that applies: for a request, the value of its key in the first alias
/// field object that has it; for a resolved path, the value of the first key, in declaration
/// order, that maps onto the path.
pub open spec fn spec_browser_value(
    objects: Seq<JsonObject>,
    pkg_path: Seq<char>,
    path: Seq<char>,
    request: Option<Seq<char>>,
) -> Option<JsonValue> {
    match request {
        Some(req) => {
            let i = spec_first_with_key(objects, req);
            if i < objects.len() {
                spec_object_get(objects[i], req)
            } else {
                None
            }
        },
        None => {
            let entries = spec_flatten(objects);
            let dir = spec_parent(pkg_path)->Some_0;
            let i = spec_first_match(entries, dir, path);
            if i < entries.len() {
                Some(entries[i].1)
            } else {
                None
            }
        },
    }
}

/// View over an entry of the `imports`/`exports` fields.
#[derive(Clone, Copy)]
pub struct ImportsExportsEntryGeneric<'a>(pub &'a JsonValue);

/// View over an array of the `imports`/`exports` fields.
#[derive(Clone, Copy)]
pub struct ImportsExportsArrayGeneric<'a>(pub &'a [JsonValue]);

/// View over a map (object) of the `imports`/`exports` fields.
#[derive(Clone, Copy)]
pub struct ImportsExportsMapGeneric<'a>(pub &'a JsonObject);

impl<'a> ImportsExportsEntryGeneric<'a> {
    pub fn kind(&self) -> (r: ImportsExportsKind)
        ensures
            r == spec_kind(*self.0),
    {
        match self.0 {
            JsonValue::String(_) => ImportsExportsKind::String,
            JsonValue::Array(_) => ImportsExportsKind::Array,
            JsonValue::Object(_) => ImportsExportsKind::Object,
            _ => ImportsExportsKind::Invalid,
        }
    }

    pub fn as_string(&self) -> (r: Option<&'a str>)
        ensures
            match *self.0 {
                JsonValue::String(s) => r matches Some(t) && t@ == s@,
                _ => r is None,
            },
    {
        self.0.as_str()
    }

    pub fn as_array(&self) -> (r: Option<ImportsExportsArrayGeneric<'a>>)
        ensures
            match *self.0 {
                JsonValue::Array(a) => r matches Some(t) && t.0@ == a@,
                _ => r is None,
            },
    {
        match self.0.as_slice() {
            Some(a) => Some(ImportsExportsArrayGeneric(a)),
            None => None,
        }
    }

    pub fn as_map(&self) -> (r: Option<ImportsExportsMapGeneric<'a>>)
        ensures
            match *self.0 {
                JsonValue::Object(o) => r matches Some(t) && *t.0 == o,
                _ => r is None,
            },
    {
        match self.0.as_object() {
            Some(o) => Some(ImportsExportsMapGeneric(o)),
            None => None,
        }
    }
}

impl<'a> ImportsExportsArrayGeneric<'a> {
    pub fn is_empty(&self) -> (r: bool)
        ensures
            r == (self.0@.len() == 0),
    {
        self.0.len() == 0
    }

    pub fn len(&self) -> (r: usize)
        ensures
            r == self.0@.len(),
    {
        self.0.len()
    }

    /// The entries, in order.
    pub fn iter(&self) -> (r: Vec<ImportsExportsEntryGeneric<'a>>)
        ensures
            r@.len() == self.0@.len(),
            forall|k: int| 0 <= k < r@.len() ==> *(#[trigger] r@[k]).0 == self.0@[k],
    {
        let mut out: Vec<ImportsExportsEntryGeneric<'a>> = Vec::new();
        let mut i: usize = 0;
        while i < self.0.len()
            invariant
                i <= self.0@.len(),
                out@.len() == i,
                forall|k: int| 0 <= k < i ==> *(#[trigger] out@[k]).0 == self.0@[k],
            decreases self.0.len() - i,
        {
            out.push(ImportsExportsEntryGeneric(&self.0[i]));
            i = i + 1;
        }
        out
    }
}

impl<'a> ImportsExportsMapGeneric<'a> {
    pub fn get(&self, key: &str) -> (r: Option<ImportsExportsEntryGeneric<'a>>)
        ensures
            r matches Some(e) ==> spec_object_get(*self.0, key@) == Some(*e.0),
            r is None ==> spec_object_get(*self.0, key@) is None,
    {
        match self.0.get(key) {
            Some(v) => Some(ImportsExportsEntryGeneric(v)),
            None => None,
        }
    }

    /// The keys, in order.
    pub fn keys(&self) -> (r: Vec<&'a str>)
        ensures
            r@.len() == self.0.entries@.len(),
            forall|k: int| 0 <= k < r@.len() ==> (#[trigger] r@[k])@ == self.0.entries@[k].0@,
    {
        let mut out: Vec<&'a str> = Vec::new();
        let mut i: usize = 0;
        while i < self.0.entries.len()
            invariant
                i <= self.0.entries@.len(),
                out@.len() == i,
                forall|k: int| 0 <= k < i ==> (#[trigger] out@[k])@ == self.0.entries@[k].0@,
            decreases self.0.entries.len() - i,
        {
            out.push(self.0.entries[i].0.as_str());
            i = i + 1;
        }
        out
    }

    /// The entries, in order.
    pub fn iter(&self) -> (r: Vec<(&'a str, ImportsExportsEntryGeneric<'a>)>)
        ensures
            r@.len() == self.0.entries@.len(),
            forall|k: int|
                0 <= k < r@.len() ==> (#[trigger] r@[k]).0@ == self.0.entries@[k].0@ && *r@[k].1.0
                    == self.0.entries@[k].1,
    {
        let mut out: Vec<(&'a str, ImportsExportsEntryGeneric<'a>)> = Vec::new();
        let mut i: usize = 0;
        while i < self.0.entries.len()
            invariant
                i <= self.0.entries@.len(),
                out@.len() == i,
                forall|k: int|
                    0 <= k < i ==> (#[trigger] out@[k]).0@ == self.0.entries@[k].0@ && *out@[k].1.0
                        == self.0.entries@[k].1,
            decreases self.0.entries.len() - i,
        {
            let e = &self.0.entries[i];
            out.push((e.0.as_str(), ImportsExportsEntryGeneric(&e.1)));
            i = i + 1;
        }
        out
    }
}

/// A parsed `package.json` and the location where it was found.
#[derive(Debug)]
pub struct PackageJson {
    /// Path to `package.json`. Contains the `package.json` filename.
    pub path: String,
    /// Realpath to `package.json`. Contains the `package.json` filename.
    pub realpath: String,
    /// The parsed document.
    pub root: JsonValue,
}

/// The strings among `values`, in order.
pub open spec fn spec_strings_of(values: Seq<JsonValue>) -> Seq<Seq<char>>
    decreases values.len(),
{
    if values.len() == 0 {
        Seq::empty()
    } else {
        spec_strings_of(values.drop_last()) + match values.last() {
            JsonValue::String(s) => seq![s@],
            _ => Seq::empty(),
        }
    }
}

pub open spec fn refs_view<T>(v: Seq<&T>) -> Seq<T> {
    v.map_values(|x: &T| *x)
}

pub open spec fn entries_view<'a>(v: Seq<ImportsExportsEntryGeneric<'a>>) -> Seq<JsonValue> {
    v.map_values(|e: ImportsExportsEntryGeneric<'a>| *e.0)
}

pub open spec fn maps_view<'a>(v: Seq<ImportsExportsMapGeneric<'a>>) -> Seq<JsonObject> {
    v.map_values(|e: ImportsExportsMapGeneric<'a>| *e.0)
}

impl PackageJson {
    pub fn new(path: String, realpath: String, root: JsonValue) -> (r: Self)
        ensures
            r.path == path,
            r.realpath == realpath,
            r.root == root,
    {
        PackageJson { path, realpath, root }
    }

    /// Returns the path where the `package.json` was found.
    pub fn path(&self) -> (r: &str)
        ensures
            r@ == self.path@,
    {
        self.path.as_str()
    }

    /// Returns the path where the `package.json` file was stored on disk.
    pub fn realpath(&self) -> (r: &str)
        ensures
            r@ == self.realpath@,
    {
        self.realpath.as_str()
    }

    /// Directory to `package.json`: the parent of its real path.
    pub fn directory(&self) -> (r: String)
        requires
            spec_parent(self.realpath@) is Some,
        ensures
            spec_parent(self.realpath@) == Some(r@),
    {
        match parent(self.realpath.as_str()) {
            Some(p) => p,
            None => String::new(),
        }
    }

    fn field(&self, key: &str) -> (r: Option<&JsonValue>)
        ensures
            r matches Some(v) ==> spec_field(self.root, key@) == Some(*v),
            r is None ==> spec_field(self.root, key@) is None,
    {
        match self.root.as_object() {
            Some(o) => o.get(key),
            None => None,
        }
    }

    fn field_str(&self, key: &str) -> (r: Option<&str>)
        ensures
            opt_str_view(r) == spec_field_str(self.root, key@),
    {
        match self.field(key) {
            Some(v) => v.as_str(),
            None => None,
        }
    }

    /// Name of the package.
    pub fn name(&self) -> (r: Option<&str>)
        ensures
            opt_str_view(r) == spec_field_str(self.root, "name"@),
    {
        self.field_str("name")
    }

    /// Version of the package.
    pub fn version(&self) -> (r: Option<&str>)
        ensures
            opt_str_view(r) == spec_field_str(self.root, "version"@),
    {
        self.field_str("version")
    }

    /// The "types" field.
    pub fn types(&self) -> (r: Option<&str>)
        ensures
            opt_str_view(r) == spec_field_str(self.root, "types"@),
    {
        self.field_str("types")
    }

    /// The "typings" field (legacy equivalent of "types").
    pub fn typings(&self) -> (r: Option<&str>)
        ensures
            opt_str_view(r) == spec_field_str(self.root, "typings"@),
    {
        self.field_str("typings")
    }

    /// Returns the package type, if one is configured in the `package.json`.
    pub fn package_type(&self) -> (r: Option<PackageType>)
        ensures
            r == (match spec_field_str(self.root, "type"@) {
                Some(s) => spec_package_type(s),
                None => None,
            }),
    {
        match self.field_str("type") {
            Some(s) => PackageType::from_str(s),
            None => None,
        }
    }

    /// The "sideEffects" field: a boolean, a string, or the strings of an array.
    pub fn side_effects(&self) -> (r: Option<SideEffects<'_>>)
        ensures
            match spec_field(self.root, "sideEffects"@) {
                Some(JsonValue::Bool(b)) => r == Some(SideEffects::Bool(b)),
                Some(JsonValue::String(s)) => r matches Some(SideEffects::String(t)) && t@ == s@,
                Some(JsonValue::Array(a)) => r matches Some(SideEffects::Array(v)) && strs_view(v@) == spec_strings_of(a@),
                _ => r is None,
            },
    {
        let value = match self.field("sideEffects") {
            Some(v) => v,
            None => return None,
        };
        if let Some(b) = value.as_bool() {
            return Some(SideEffects::Bool(b));
        }
        if let Some(s) = value.as_str() {
            return Some(SideEffects::String(s));
        }
        match value.as_slice() {
            Some(arr) => {
                let mut out: Vec<&str> = Vec::new();
                let mut i: usize = 0;
                proof {
                    assert(arr@.take(0) =~= Seq::<JsonValue>::empty());
                    assert(strs_view(out@) =~= Seq::<Seq<char>>::empty());
                }
                while i < arr.len()
                    invariant
                        i <= arr@.len(),
                        strs_view(out@) == spec_strings_of(arr@.take(i as int)),
                    decreases arr.len() - i,
                {
                    let ghost before = out@;
                    proof {
                        assert(arr@.take(i as int + 1).drop_last() =~= arr@.take(i as int));
                        assert(arr@.take(i as int + 1).last() == arr@[i as int]);
                    }
                    if let Some(s) = arr[i].as_str() {
                        out.push(s);
                        proof {
                            assert(strs_view(out@) =~= strs_view(before).push(s@));
                        }
                    }
                    proof {
                        assert(strs_view(out@) =~= spec_strings_of(arr@.take(i as int + 1)));
                    }
                    i = i + 1;
                }
                proof {
                    assert(arr@.take(arr@.len() as int) =~= arr@);
                }
                Some(SideEffects::Array(out))
            },
            None => None,
        }
    }

    /// The "exports" field.
    pub fn exports(&self) -> (r: Option<ImportsExportsEntryGeneric<'_>>)
        ensures
            r matches Some(e) ==> spec_field(self.root, "exports"@) == Some(*e.0),
            r is None ==> spec_field(self.root, "exports"@) is None,
    {
        match self.field("exports") {
            Some(v) => Some(ImportsExportsEntryGeneric(v)),
            None => None,
        }
    }

    /// The "typesVersions" field, when it is an object.
    pub fn types_versions(&self) -> (r: Option<ImportsExportsMapGeneric<'_>>)
        ensures
            match spec_field(self.root, "typesVersions"@) {
                Some(JsonValue::Object(o)) => r matches Some(m) && *m.0 == o,
                _ => r is None,
            },
    {
        match self.field("typesVersions") {
            Some(v) => match v.as_object() {
                Some(o) => Some(ImportsExportsMapGeneric(o)),
                None => None,
            },
            None => None,
        }
    }

    /// The string values of the given main fields, in order.
    pub fn main_fields<'a>(&'a self, main_fields: &[String]) -> (r: Vec<&'a str>)
        ensures
            strs_view(r@) == spec_main_fields(self.root, main_fields@),
    {
        let mut out: Vec<&'a str> = Vec::new();
        let mut i: usize = 0;
        proof {
            assert(main_fields@.take(0) =~= Seq::<String>::empty());
            assert(strs_view(out@) =~= Seq::<Seq<char>>::empty());
        }
        while i < main_fields.len()
            invariant
                i <= main_fields@.len(),
                strs_view(out@) == spec_main_fields(self.root, main_fields@.take(i as int)),
            decreases main_fields.len() - i,
        {
            let ghost before = out@;
            proof {
                assert(main_fields@.take(i as int + 1).drop_last() =~= main_fields@.take(i as int));
                assert(main_fields@.take(i as int + 1).last() == main_fields@[i as int]);
            }
            if let Some(s) = self.field_str(main_fields[i].as_str()) {
                out.push(s);
                proof {
                    assert(strs_view(out@) =~= strs_view(before).push(s@));
                }
            }
            proof {
                assert(strs_view(out@) =~= spec_main_fields(self.root, main_fields@.take(i as int + 1)));
            }
            i = i + 1;
        }
        proof {
            assert(main_fields@.take(main_fields@.len() as int) =~= main_fields@);
        }
        out
    }

    /// The values at the given key paths, in order (the "exports" field and its alternatives).
    pub fn exports_fields<'a>(&'a self, exports_fields: &[Vec<String>]) -> (r: Vec<ImportsExportsEntryGeneric<'a>>)
        ensures
            entries_view(r@) == spec_values_at_paths(self.root, exports_fields@),
    {
        let mut out: Vec<ImportsExportsEntryGeneric<'a>> = Vec::new();
        let object = self.root.as_object();
        let mut i: usize = 0;
        proof {
            assert(exports_fields@.take(0) =~= Seq::<Vec<String>>::empty());
            assert(entries_view(out@) =~= Seq::<JsonValue>::empty());
        }
        while i < exports_fields.len()
            invariant
                i <= exports_fields@.len(),
                match self.root {
                    JsonValue::Object(o) => object == Some(&o),
                    _ => object is None,
                },
                entries_view(out@) == spec_values_at_paths(self.root, exports_fields@.take(i as int)),
            decreases exports_fields.len() - i,
        {
            let ghost before = out@;
            proof {
                assert(exports_fields@.take(i as int + 1).drop_last() =~= exports_fields@.take(i as int));
                assert(exports_fields@.take(i as int + 1).last() == exports_fields@[i as int]);
            }
            if let Some(o) = object {
                if let Some(v) = get_value_by_path(o, exports_fields[i].as_slice()) {
                    out.push(ImportsExportsEntryGeneric(v));
                    proof {
                        assert(entries_view(out@) =~= entries_view(before).push(*v));
                    }
                }
            }
            proof {
                assert(entries_view(out@) =~= spec_values_at_paths(self.root, exports_fields@.take(i as int + 1)));
            }
            i = i + 1;
        }
        proof {
            assert(exports_fields@.take(exports_fields@.len() as int) =~= exports_fields@);
        }
        out
    }

    fn objects_at_paths<'a>(&'a self, paths: &[Vec<String>]) -> (r: Vec<&'a JsonObject>)
        ensures
            refs_view(r@) == spec_objects_at_paths(self.root, paths@),
    {
        let mut out: Vec<&'a JsonObject> = Vec::new();
        let object = self.root.as_object();
        let mut i: usize = 0;
        proof {
            assert(paths@.take(0) =~= Seq::<Vec<String>>::empty());
            assert(refs_view(out@) =~= Seq::<JsonObject>::empty());
        }
        while i < paths.len()
            invariant
                i <= paths@.len(),
                match self.root {
                    JsonValue::Object(o) => object == Some(&o),
                    _ => object is None,
                },
                refs_view(out@) == spec_objects_at_paths(self.root, paths@.take(i as int)),
            decreases paths.len() - i,
        {
            let ghost before = out@;
            proof {
                assert(paths@.take(i as int + 1).drop_last() =~= paths@.take(i as int));
                assert(paths@.take(i as int + 1).last() == paths@[i as int]);
            }
            if let Some(o) = object {
                if let Some(v) = get_value_by_path(o, paths[i].as_slice()) {
                    if let Some(found) = v.as_object() {
                        out.push(found);
                        proof {
                            assert(refs_view(out@) =~= refs_view(before).push(*found));
                        }
                    }
                }
            }
            proof {
                assert(refs_view(out@) =~= spec_objects_at_paths(self.root, paths@.take(i as int + 1)));
            }
            i = i + 1;
        }
        proof {
            assert(paths@.take(paths@.len() as int) =~= paths@);
        }
        out
    }

    /// The objects at the given key paths, in order (the "imports" field and its
    /// alternatives).
    pub fn imports_fields<'a>(&'a self, imports_fields: &[Vec<String>]) -> (r: Vec<ImportsExportsMapGeneric<'a>>)
        ensures
            maps_view(r@) == spec_objects_at_paths(self.root, imports_fields@),
    {
        let objects = self.objects_at_paths(imports_fields);
        let mut out: Vec<ImportsExportsMapGeneric<'a>> = Vec::new();
        let mut i: usize = 0;
        while i < objects.len()
            invariant
                i <= objects@.len(),
                maps_view(out@) == refs_view(objects@).take(i as int),
            decreases objects.len() - i,
        {
            let ghost before = out@;
            out.push(ImportsExportsMapGeneric(objects[i]));
            proof {
                assert(maps_view(out@) =~= maps_view(before).push(*objects@[i as int]));
                assert(refs_view(objects@).take(i as int + 1) =~= refs_view(objects@).take(i as int).push(
                    refs_view(objects@)[i as int],
                ));
                assert(maps_view(out@) =~= refs_view(objects@).take(i as int + 1));
            }
            i = i + 1;
        }
        proof {
            assert(refs_view(objects@).take(objects@.len() as int) =~= refs_view(objects@));
        }
        out
    }

    /// The objects at the given alias field paths, in order; values that are not objects are
    /// not alias fields.
    pub fn browser_fields<'a>(&'a self, alias_fields: &[Vec<String>]) -> (r: Vec<&'a JsonObject>)
        ensures
            refs_view(r@) == spec_objects_at_paths(self.root, alias_fields@),
    {
        self.objects_at_paths(alias_fields)
    }

    /// Apply this `package.json`'s `"browser"` field (and the other alias fields) to a request
    /// or to a resolved path.
    ///
    /// * **Forward** (`request` is `Some`): look the request up as a key.
    /// * **Reverse** (`request` is `None`): find the first key whose package-relative path is
    ///   `path`.
    ///
    /// A string value is the replacement; `false` is [`ResolveError::Ignored`] with `path`.
    pub fn resolve_browser_field<'a>(
        &'a self,
        path: &str,
        request: Option<&str>,
        alias_fields: &[Vec<String>],
    ) -> (r: Result<Option<&'a str>, ResolveError>)
        requires
            request is None ==> spec_parent(self.path@) is Some,
        ensures
            match spec_browser_value(
                spec_objects_at_paths(self.root, alias_fields@),
                self.path@,
                path@,
                opt_str_view(request),
            ) {
                Some(v) => spec_alias_result(path@, v, r),
                None => r matches Ok(None),
            },
    {
        let objects = self.browser_fields(alias_fields);
        let ghost objs = refs_view(objects@);
        if let Some(req) = request {
            let mut i: usize = 0;
            proof {
                assert(objs.skip(0) =~= objs);
            }
            while i < objects.len()
                invariant
                    i <= objects@.len(),
                    objs == refs_view(objects@),
                    objs == spec_objects_at_paths(self.root, alias_fields@),
                    objs.len() == objects@.len(),
                    request == Some(req),
                    spec_first_with_key(objs, req@) == i + spec_first_with_key(objs.skip(i as int), req@),
                decreases objects.len() - i,
            {
                proof {
                    assert(objs.skip(i as int)[0] == objs[i as int]);
                    assert(objs[i as int] == *objects@[i as int]);
                }
                if let Some(value) = objects[i].get(req) {
                    proof {
                        assert(spec_object_get(objs.skip(i as int)[0], req@) is Some);
                        assert(spec_first_with_key(objs.skip(i as int), req@) == 0);
                        assert(spec_first_with_key(objs, req@) == i);
                        assert(spec_object_get(objs[i as int], req@) == Some(*value));
                    }
                    return alias_value(path, value);
                }
                proof {
                    assert(objs.skip(i as int).skip(1) =~= objs.skip(i as int + 1));
                }
                i = i + 1;
            }
            return Ok(None);
        }
        let dir = match parent(self.path.as_str()) {
            Some(d) => d,
            None => return Ok(None),
        };
        let pairs = flatten_entries(&objects);
        let ghost entries = spec_flatten(objs);
        let path_file_name = file_name(path);
        let mut i: usize = 0;
        proof {
            assert(entries.skip(0) =~= entries);
        }
        while i < pairs.len()
            invariant
                i <= pairs@.len(),
                entries == refs_view(pairs@),
                entries == spec_flatten(objs),
                request is None,
                objs == spec_objects_at_paths(self.root, alias_fields@),
                entries.len() == pairs@.len(),
                spec_parent(self.path@) == Some(dir@),
                path_file_name matches Some(n) ==> spec_file_name(path@) == Some(n@),
                path_file_name is None ==> spec_file_name(path@) is None,
                spec_first_match(entries, dir@, path@) == i + spec_first_match(entries.skip(i as int), dir@, path@),
            decreases pairs.len() - i,
        {
            let pair = pairs[i];
            proof {
                assert(entries.skip(i as int)[0] == entries[i as int]);
                assert(entries[i as int] == *pairs@[i as int]);
            }
            let key = pair.0.as_str();
            let passed_over = match file_name(key) {
                Some(key_file_name) => match &path_file_name {
                    Some(n) => !str_eq(key_file_name.as_str(), n.as_str()),
                    None => true,
                },
                None => false,
            };
            if !passed_over {
                let joined = dir.as_str().normalize_with(key);
                if same_path(joined.as_str(), path) {
                    proof {
                        assert(browser_key_matches(dir@, entries[i as int].0@, path@));
                        assert(browser_key_matches(dir@, entries.skip(i as int)[0].0@, path@));
                        assert(spec_first_match(entries.skip(i as int), dir@, path@) == 0);
                        assert(spec_first_match(entries, dir@, path@) == i);
                        assert(entries[i as int].1 == pair.1);
                    }
                    return alias_value(path, &pair.1);
                }
            }
            proof {
                assert(!browser_key_matches(dir@, entries[i as int].0@, path@));
                assert(entries.skip(i as int).skip(1) =~= entries.skip(i as int + 1));
            }
            i = i + 1;
        }
        Ok(None)
    }
}

/// The entries of all `objects`, object after object.
pub fn flatten_entries<'a>(objects: &Vec<&'a JsonObject>) -> (r: Vec<&'a (String, JsonValue)>)
    ensures
        refs_view(r@) == spec_flatten(refs_view(objects@)),
{
    let ghost objs = refs_view(objects@);
    let mut out: Vec<&'a (String, JsonValue)> = Vec::new();
    let mut i: usize = 0;
    proof {
        assert(objs.take(0) =~= Seq::<JsonObject>::empty());
        assert(refs_view(out@) =~= Seq::<(String, JsonValue)>::empty());
    }
    while i < objects.len()
        invariant
            i <= objects@.len(),
            objs == refs_view(objects@),
            refs_view(out@) == spec_flatten(objs.take(i as int)),
        decreases objects.len() - i,
    {
        let o = objects[i];
        let ghost start = refs_view(out@);
        let mut j: usize = 0;
        proof {
            assert(o.entries@.take(0) =~= Seq::<(String, JsonValue)>::empty());
            assert(refs_view(out@) =~= start + o.entries@.take(0));
        }
        while j < o.entries.len()
            invariant
                j <= o.entries@.len(),
                refs_view(out@) == start + o.entries@.take(j as int),
            decreases o.entries.len() - j,
        {
            let ghost before = out@;
            out.push(&o.entries[j]);
            proof {
                assert(refs_view(out@) =~= refs_view(before).push(o.entries@[j as int]));
                assert(o.entries@.take(j as int + 1) =~= o.entries@.take(j as int).push(o.entries@[j as int]));
            }
            j = j + 1;
        }
        proof {
            assert(o.entries@.take(o.entries@.len() as int) =~= o.entries@);
            assert(objs.take(i as int + 1).drop_last() =~= objs.take(i as int));
            assert(objs.take(i as int + 1).last() == *o);
            assert(refs_view(out@) =~= spec_flatten(objs.take(i as int + 1)));
        }
        i = i + 1;
    }
    proof {
        assert(objs.take(objects@.len() as int) =~= objs);
    }
    out
}

} // verus!
