//! The pure parts of declaration-file (`.d.ts`) resolution, as TypeScript's
//! `ts.resolveModuleName` does it with `moduleResolution: "bundler"`: which file extensions are
//! tried for a candidate, `@types` name mangling, `typesVersions` path patterns and the module
//! type of a declaration file.
pub mod directory;
pub mod file_probe;
pub mod lookup;
pub mod node_modules;
pub mod package_lookup;

use vstd::prelude::*;
use vstd::string::StringExecFns;

use crate::json::{str_eq, JsonObject, JsonValue};
use crate::package_json::{opt_str_view, spec_field, spec_field_str, spec_main_fields, spec_strings_of, PackageJson};
use crate::path::{spec_join, PathUtil};
use crate::resolution::ModuleType;
use crate::text::{chars_to_string, str_chars, sub_chars};

verus! {

broadcast use vstd::string::group_string_axioms;

pub const TYPESCRIPT_BITS: u8 = 1;
pub const JAVASCRIPT_BITS: u8 = 2;
pub const DECLARATION_BITS: u8 = 4;

/// Extension categories for DTS resolution, as a set of flags: `.ts`, `.tsx`, `.mts`, `.cts`
/// (TypeScript); `.js`, `.jsx`, `.mjs`, `.cjs` (JavaScript); `.d.ts`, `.d.mts`, `.d.cts`
/// (declarations).
#[derive(Debug, Clone, Copy, PartialEq, Eq, Structural)]
pub struct Extensions(pub u8);

impl Extensions {
    pub fn typescript() -> (r: Self)
        ensures
            r.0 == TYPESCRIPT_BITS,
    {
        Extensions(TYPESCRIPT_BITS)
    }

    pub fn javascript() -> (r: Self)
        ensures
            r.0 == JAVASCRIPT_BITS,
    {
        Extensions(JAVASCRIPT_BITS)
    }

    pub fn declaration() -> (r: Self)
        ensures
            r.0 == DECLARATION_BITS,
    {
        Extensions(DECLARATION_BITS)
    }

    pub open spec fn spec_contains(self, other: Self) -> bool {
        (self.0 & other.0) == other.0
    }

    pub fn contains(self, other: Self) -> (r: bool)
        ensures
            r == self.spec_contains(other),
    {
        (self.0 & other.0) == other.0
    }

    pub fn intersects(self, other: Self) -> (r: bool)
        ensures
            r == ((self.0 & other.0) != 0),
    {
        (self.0 & other.0) != 0
    }

    pub fn is_empty(self) -> (r: bool)
        ensures
            r == (self.0 == 0),
    {
        self.0 == 0
    }

    pub fn union(self, other: Self) -> (r: Self)
        ensures
            r.0 == self.0 | other.0,
    {
        Extensions(self.0 | other.0)
    }

    pub fn intersection(self, other: Self) -> (r: Self)
        ensures
            r.0 == self.0 & other.0,
    {
        Extensions(self.0 & other.0)
    }

    pub fn difference(self, other: Self) -> (r: Self)
        ensures
            r.0 == self.0 & !other.0,
    {
        Extensions(self.0 & !other.0)
    }
}

/// Splitting a set into the part inside `mask` and the part outside it loses nothing and
/// keeps the parts apart.
pub proof fn law_extension_split(set: Extensions, mask: Extensions)
    ensures
        ((set.0 & mask.0) | (set.0 & !mask.0)) == set.0,
        ((set.0 & mask.0) & (set.0 & !mask.0)) == 0,
{
    let a = set.0;
    let b = mask.0;
    assert(((a & b) | (a & !b)) == a && ((a & b) & (a & !b)) == 0) by (bit_vector);
}

pub open spec fn ends_with(s: Seq<char>, suffix: Seq<char>) -> bool {
    suffix.len() <= s.len() && s.skip(s.len() - suffix.len()) == suffix
}

fn ends_with_exec(s: &str, suffix: &str) -> (r: bool)
    ensures
        r == ends_with(s@, suffix@),
{
    let a = str_chars(s);
    let b = str_chars(suffix);
    if b.len() > a.len() {
        return false;
    }
    let start = a.len() - b.len();
    let mut i: usize = 0;
    while i < b.len()
        invariant
            a@ == s@,
            b@ == suffix@,
            start + b@.len() == a@.len(),
            a@.len() == a.len(),
            b@.len() == b.len(),
            i <= b@.len(),
            forall|k: int| 0 <= k < i ==> a@[start + k] == b@[k],
        decreases b.len() - i,
    {
        if a[start + i] != b[i] {
            proof {
                assert(a@.skip(start as int)[i as int] != b@[i as int]);
            }
            return false;
        }
        i = i + 1;
    }
    proof {
        assert(a@.skip(start as int) =~= b@);
    }
    true
}

/// The index of the last `.` of `s`, or `-1`.
pub open spec fn spec_rfind_dot(s: Seq<char>) -> int
    decreases s.len(),
{
    if s.len() == 0 {
        -1
    } else if s.last() == '.' {
        s.len() - 1
    } else {
        spec_rfind_dot(s.drop_last())
    }
}

proof fn lemma_rfind_dot(s: Seq<char>)
    ensures
        -1 <= spec_rfind_dot(s) < s.len(),
        spec_rfind_dot(s) >= 0 ==> s[spec_rfind_dot(s)] == '.',
    decreases s.len(),
{
    if s.len() > 0 && s.last() != '.' {
        lemma_rfind_dot(s.drop_last());
    }
}

pub open spec fn is_listed_extension(ext: Seq<char>) -> bool {
    ext == ".ts"@ || ext == ".tsx"@ || ext == ".mts"@ || ext == ".cts"@ || ext == ".js"@ || ext
        == ".jsx"@ || ext == ".mjs"@ || ext == ".cjs"@ || ext == ".json"@
}

/// The known extension of the file name of `path`, compound extensions like `.d.ts`
/// included; a file name without a dot has none. An unknown extension (`.vue`, `.svelte`) is
/// returned too when it is shorter than ten bytes, for the `.d.{ext}.ts` lookup.
pub open spec fn spec_dts_known_extension(path: Seq<char>) -> Option<Seq<char>> {
    if ends_with(path, ".d.ts"@) {
        Some(".d.ts"@)
    } else if ends_with(path, ".d.mts"@) {
        Some(".d.mts"@)
    } else if ends_with(path, ".d.cts"@) {
        Some(".d.cts"@)
    } else {
        let d = spec_rfind_dot(path);
        if d < 0 || path.skip(d).contains('/') {
            None
        } else {
            let ext = path.skip(d);
            if is_listed_extension(ext) || (ext.len() > 0 && vstd::utf8::encode_utf8(ext).len() < 10) {
                Some(ext)
            } else {
                None
            }
        }
    }
}

/// Get the known extension from a path (see [`spec_dts_known_extension`]).
pub fn dts_get_known_extension(path: &str) -> (r: Option<String>)
    ensures
        match spec_dts_known_extension(path@) {
            Some(e) => r matches Some(s) && s@ == e,
            None => r is None,
        },
{
    if ends_with_exec(path, ".d.ts") {
        return Some(".d.ts".to_owned());
    }
    if ends_with_exec(path, ".d.mts") {
        return Some(".d.mts".to_owned());
    }
    if ends_with_exec(path, ".d.cts") {
        return Some(".d.cts".to_owned());
    }
    let chars = str_chars(path);
    let mut i: usize = chars.len();
    proof {
        assert(chars@.take(i as int) =~= chars@);
    }
    while i > 0 && chars[i - 1] != '.'
        invariant
            i <= chars@.len(),
            chars@ == path@,
            spec_rfind_dot(chars@) == spec_rfind_dot(chars@.take(i as int)),
        decreases i,
    {
        proof {
            assert(chars@.take(i as int).drop_last() =~= chars@.take(i as int - 1));
        }
        i = i - 1;
    }
    if i == 0 {
        proof {
            assert(chars@.take(0) =~= Seq::<char>::empty());
        }
        return None;
    }
    proof {
        assert(chars@.take(i as int).last() == chars@[i - 1]);
        assert(spec_rfind_dot(path@) == i - 1);
    }
    let mut j: usize = i;
    while j < chars.len()
        invariant
            i <= j <= chars@.len(),
            chars@ == path@,
            i >= 1,
            spec_rfind_dot(path@) == i - 1,
            !ends_with(path@, ".d.ts"@),
            !ends_with(path@, ".d.mts"@),
            !ends_with(path@, ".d.cts"@),
            forall|k: int| i <= k < j ==> chars@[k] != '/',
        decreases chars.len() - j,
    {
        if chars[j] == '/' {
            proof {
                assert(path@.skip(i - 1)[j - (i - 1)] == '/');
                assert(path@.skip(i - 1).contains('/'));
            }
            return None;
        }
        j = j + 1;
    }
    proof {
        assert(chars@[i - 1] == '.');
        let tail = path@.skip(i - 1);
        if tail.contains('/') {
            let k = choose|k: int| 0 <= k < tail.len() && #[trigger] tail[k] == '/';
            assert(tail[k] == chars@[k + i - 1]);
        }
    }
    let ext = chars_to_string(sub_chars(chars.as_slice(), i - 1, chars.len()).as_slice());
    proof {
        assert(ext@ =~= path@.skip(i - 1));
    }
    let e = ext.as_str();
    if str_eq(e, ".ts") || str_eq(e, ".tsx") || str_eq(e, ".mts") || str_eq(e, ".cts") || str_eq(e, ".js")
        || str_eq(e, ".jsx") || str_eq(e, ".mjs") || str_eq(e, ".cjs") || str_eq(e, ".json") {
        return Some(ext);
    }
    if !e.is_empty() && e.as_bytes().len() < 10 {
        Some(ext)
    } else {
        None
    }
}

pub open spec fn when(flag: bool, items: Seq<Seq<char>>) -> Seq<Seq<char>> {
    if flag {
        items
    } else {
        Seq::empty()
    }
}

/// The extensions that `tryAddingExtensions` tries, in order, for a candidate whose known
/// extension is `known_ext` (empty when none was stripped).
pub open spec fn spec_dts_extensions_to_try(extensions: Extensions, known_ext: Seq<char>) -> Seq<Seq<char>> {
    let ts = extensions.spec_contains(Extensions(TYPESCRIPT_BITS));
    let dts = extensions.spec_contains(Extensions(DECLARATION_BITS));
    let js = extensions.spec_contains(Extensions(JAVASCRIPT_BITS));
    if known_ext == ".mjs"@ || known_ext == ".mts"@ || known_ext == ".d.mts"@ {
        when(ts, seq![".mts"@]) + when(dts, seq![".d.mts"@]) + when(js, seq![".mjs"@])
    } else if known_ext == ".cjs"@ || known_ext == ".cts"@ || known_ext == ".d.cts"@ {
        when(ts, seq![".cts"@]) + when(dts, seq![".d.cts"@]) + when(js, seq![".cjs"@])
    } else if known_ext == ".json"@ {
        when(dts, seq![".d.json.ts"@])
    } else if known_ext == ".tsx"@ || known_ext == ".jsx"@ {
        when(ts, seq![".tsx"@, ".ts"@]) + when(dts, seq![".d.ts"@]) + when(js, seq![".jsx"@, ".js"@])
    } else if known_ext == ".ts"@ || known_ext == ".d.ts"@ || known_ext == ".js"@ || known_ext.len() == 0 {
        when(ts, seq![".ts"@, ".tsx"@]) + when(dts, seq![".d.ts"@]) + when(js, seq![".js"@, ".jsx"@])
    } else {
        when(dts, seq![".d"@ + known_ext + ".ts"@])
    }
}

pub open spec fn strings_view(v: Seq<String>) -> Seq<Seq<char>> {
    v.map_values(|s: String| s@)
}

fn push_when(out: &mut Vec<String>, flag: bool, items: &[&str])
    ensures
        strings_view(final(out)@) == strings_view(old(out)@) + when(
            flag,
            items@.map_values(|s: &str| s@),
        ),
{
    let ghost start = strings_view(out@);
    if !flag {
        proof {
            assert(strings_view(out@) =~= start + when(flag, items@.map_values(|s: &str| s@)));
        }
        return;
    }
    let mut i: usize = 0;
    while i < items.len()
        invariant
            i <= items@.len(),
            strings_view(out@) == start + items@.map_values(|s: &str| s@).take(i as int),
        decreases items.len() - i,
    {
        let ghost before = out@;
        out.push(items[i].to_owned());
        proof {
            assert(strings_view(out@) =~= strings_view(before).push(items@[i as int]@));
            assert(items@.map_values(|s: &str| s@).take(i as int + 1) =~= items@.map_values(|s: &str| s@).take(
                i as int,
            ).push(items@[i as int]@));
        }
        i = i + 1;
    }
    proof {
        assert(items@.map_values(|s: &str| s@).take(items@.len() as int) =~= items@.map_values(|s: &str| s@));
    }
}

/// The extensions to try for a candidate (see [`spec_dts_extensions_to_try`]): the decision
/// table of TypeScript's `tryAddingExtensions`.
pub fn dts_extensions_to_try(extensions: Extensions, known_ext: &str) -> (r: Vec<String>)
    ensures
        strings_view(r@) == spec_dts_extensions_to_try(extensions, known_ext@),
{
    let ts = extensions.contains(Extensions::typescript());
    let dts = extensions.contains(Extensions::declaration());
    let js = extensions.contains(Extensions::javascript());
    let mut out: Vec<String> = Vec::new();
    proof {
        assert(strings_view(out@) =~= Seq::<Seq<char>>::empty());
    }
    let o = known_ext;
    if str_eq(o, ".mjs") || str_eq(o, ".mts") || str_eq(o, ".d.mts") {
        let a = [".mts"];
        let b = [".d.mts"];
        let c = [".mjs"];
        push_when(&mut out, ts, &a);
        push_when(&mut out, dts, &b);
        push_when(&mut out, js, &c);
        proof {
            assert(a@.map_values(|s: &str| s@) =~= seq![".mts"@]);
            assert(b@.map_values(|s: &str| s@) =~= seq![".d.mts"@]);
            assert(c@.map_values(|s: &str| s@) =~= seq![".mjs"@]);
        }
    } else if str_eq(o, ".cjs") || str_eq(o, ".cts") || str_eq(o, ".d.cts") {
        let a = [".cts"];
        let b = [".d.cts"];
        let c = [".cjs"];
        push_when(&mut out, ts, &a);
        push_when(&mut out, dts, &b);
        push_when(&mut out, js, &c);
        proof {
            assert(a@.map_values(|s: &str| s@) =~= seq![".cts"@]);
            assert(b@.map_values(|s: &str| s@) =~= seq![".d.cts"@]);
            assert(c@.map_values(|s: &str| s@) =~= seq![".cjs"@]);
        }
    } else if str_eq(o, ".json") {
        let b = [".d.json.ts"];
        push_when(&mut out, dts, &b);
        proof {
            assert(b@.map_values(|s: &str| s@) =~= seq![".d.json.ts"@]);
        }
    } else if str_eq(o, ".tsx") || str_eq(o, ".jsx") {
        let a = [".tsx", ".ts"];
        let b = [".d.ts"];
        let c = [".jsx", ".js"];
        push_when(&mut out, ts, &a);
        push_when(&mut out, dts, &b);
        push_when(&mut out, js, &c);
        proof {
            assert(a@.map_values(|s: &str| s@) =~= seq![".tsx"@, ".ts"@]);
            assert(b@.map_values(|s: &str| s@) =~= seq![".d.ts"@]);
            assert(c@.map_values(|s: &str| s@) =~= seq![".jsx"@, ".js"@]);
        }
    } else if str_eq(o, ".ts") || str_eq(o, ".d.ts") || str_eq(o, ".js") || o.is_empty() {
        let a = [".ts", ".tsx"];
        let b = [".d.ts"];
        let c = [".js", ".jsx"];
        push_when(&mut out, ts, &a);
        push_when(&mut out, dts, &b);
        push_when(&mut out, js, &c);
        proof {
            assert(a@.map_values(|s: &str| s@) =~= seq![".ts"@, ".tsx"@]);
            assert(b@.map_values(|s: &str| s@) =~= seq![".d.ts"@]);
            assert(c@.map_values(|s: &str| s@) =~= seq![".js"@, ".jsx"@]);
        }
    } else if dts {
        let d_ext = ".d".to_owned().concat(o).concat(".ts");
        out.push(d_ext);
        proof {
            assert(strings_view(out@) =~= seq![".d"@ + o@ + ".ts"@]);
        }
    } else {
        proof {
            assert(strings_view(out@) =~= Seq::<Seq<char>>::empty());
        }
    }
    out
}

/// `@types` scoped name mangling: `@babel/core` is `babel__core`; an unscoped name is kept.
pub open spec fn spec_dts_mangle_scoped_name(name: Seq<char>) -> Seq<char> {
    if name.len() > 0 && name[0] == '@' {
        let rest = name.skip(1);
        let i = crate::text::spec_find_either(rest, '/', '/');
        if i < rest.len() {
            rest.take(i) + seq!['_', '_'] + rest.skip(i + 1)
        } else {
            rest
        }
    } else {
        name
    }
}

pub fn dts_mangle_scoped_name(name: &str) -> (r: String)
    ensures
        r@ == spec_dts_mangle_scoped_name(name@),
{
    let chars = str_chars(name);
    if chars.len() == 0 || chars[0] != '@' {
        return name.to_owned();
    }
    let rest = sub_chars(chars.as_slice(), 1, chars.len());
    proof {
        assert(rest@ =~= name@.skip(1));
    }
    let i = crate::text::find_either(rest.as_slice(), '/', '/');
    proof {
        crate::text::lemma_find_either(rest@, '/', '/');
    }
    if i < rest.len() {
        let mut out = sub_chars(rest.as_slice(), 0, i);
        out.push('_');
        out.push('_');
        let mut j: usize = i + 1;
        proof {
            assert(rest@.skip(i as int + 1).take(0) =~= Seq::<char>::empty());
            assert(out@ =~= rest@.take(i as int) + seq!['_', '_'] + rest@.skip(i as int + 1).take(0));
        }
        while j < rest.len()
            invariant
                i + 1 <= j <= rest@.len(),
                out@ == rest@.take(i as int) + seq!['_', '_'] + rest@.skip(i as int + 1).take(j - i - 1),
            decreases rest.len() - j,
        {
            out.push(rest[j]);
            proof {
                assert(rest@.skip(i as int + 1).take(j - i) =~= rest@.skip(i as int + 1).take(j - i - 1).push(
                    rest@[j as int],
                ));
            }
            j = j + 1;
        }
        proof {
            assert(rest@.skip(i as int + 1).take(rest@.len() - i - 1) =~= rest@.skip(i as int + 1));
        }
        chars_to_string(out.as_slice())
    } else {
        chars_to_string(rest.as_slice())
    }
}

/// The specifier looked up under `@types`: the mangled package name and the rest.
pub fn dts_at_types_specifier(package_name: &str, rest: &str) -> (r: String)
    ensures
        r@ == spec_dts_mangle_scoped_name(package_name@) + rest@,
{
    dts_mangle_scoped_name(package_name).concat(rest)
}

/// Match a specifier against a `typesVersions` pattern with an optional `*` wildcard: the text
/// the `*` stands for, or the empty text for an exact pattern.
pub open spec fn spec_dts_match_pattern(pattern: Seq<char>, specifier: Seq<char>) -> Option<Seq<char>> {
    let i = crate::alias::spec_find_star(pattern);
    if i < pattern.len() {
        let prefix = pattern.take(i);
        let suffix = pattern.skip(i + 1);
        if prefix.len() <= specifier.len() && specifier.take(prefix.len() as int) == prefix && (suffix.len()
            == 0 || ends_with(specifier, suffix)) && specifier.len() >= prefix.len() + suffix.len() {
            Some(specifier.subrange(prefix.len() as int, specifier.len() - suffix.len()))
        } else {
            None
        }
    } else if pattern == specifier {
        Some(Seq::empty())
    } else {
        None
    }
}

pub fn dts_match_pattern(pattern: &str, specifier: &str) -> (r: Option<String>)
    ensures
        match spec_dts_match_pattern(pattern@, specifier@) {
            Some(m) => r matches Some(s) && s@ == m,
            None => r is None,
        },
{
    let p = str_chars(pattern);
    let s = str_chars(specifier);
    let mut i: usize = 0;
    proof {
        assert(p@.skip(0) =~= p@);
    }
    while i < p.len() && p[i] != '*'
        invariant
            i <= p@.len(),
            crate::alias::spec_find_star(p@) == i + crate::alias::spec_find_star(p@.skip(i as int)),
        decreases p.len() - i,
    {
        proof {
            assert(p@.skip(i as int)[0] == p@[i as int]);
            assert(p@.skip(i as int).skip(1) =~= p@.skip(i as int + 1));
        }
        i = i + 1;
    }
    if i < p.len() {
        proof {
            assert(p@.skip(i as int)[0] == p@[i as int]);
        }
        let prefix = sub_chars(p.as_slice(), 0, i);
        let suffix = sub_chars(p.as_slice(), i + 1, p.len());
        proof {
            assert(prefix@ =~= p@.take(i as int));
            assert(suffix@ =~= p@.skip(i as int + 1));
        }
        let suffix_text = chars_to_string(suffix.as_slice());
        if crate::text::starts_with_chars(s.as_slice(), prefix.as_slice())
            && (suffix.len() == 0 || ends_with_exec(specifier, suffix_text.as_str()))
            && s.len() >= prefix.len() && s.len() - prefix.len() >= suffix.len() {
            let m = sub_chars(s.as_slice(), prefix.len(), s.len() - suffix.len());
            return Some(chars_to_string(m.as_slice()));
        }
        None
    } else if str_eq(pattern, specifier) {
        Some(String::new())
    } else {
        None
    }
}

/// The module type of a declaration file by its extension.
pub open spec fn spec_dts_module_type(path: Seq<char>) -> Option<ModuleType> {
    if ends_with(path, ".d.mts"@) || ends_with(path, ".mts"@) {
        Some(ModuleType::Module)
    } else if ends_with(path, ".d.cts"@) || ends_with(path, ".cts"@) {
        Some(ModuleType::CommonJs)
    } else if ends_with(path, ".json"@) {
        Some(ModuleType::Json)
    } else {
        None
    }
}

pub fn dts_module_type(path: &str) -> (r: Option<ModuleType>)
    ensures
        r == spec_dts_module_type(path@),
{
    if ends_with_exec(path, ".d.mts") || ends_with_exec(path, ".mts") {
        Some(ModuleType::Module)
    } else if ends_with_exec(path, ".d.cts") || ends_with_exec(path, ".cts") {
        Some(ModuleType::CommonJs)
    } else if ends_with_exec(path, ".json") {
        Some(ModuleType::Json)
    } else {
        None
    }
}

/// The `(pattern, targets)` pairs of a `typesVersions` paths object, in order: an array of
/// targets keeps its strings, a string is one target, anything else is passed over.
pub open spec fn spec_paths_of(m: Seq<(String, JsonValue)>) -> Seq<(Seq<char>, Seq<Seq<char>>)>
    decreases m.len(),
{
    if m.len() == 0 {
        Seq::empty()
    } else {
        spec_paths_of(m.drop_last()) + match m.last().1 {
            JsonValue::Array(a) => seq![(m.last().0@, spec_strings_of(a@))],
            JsonValue::String(t) => seq![(m.last().0@, seq![t@])],
            _ => Seq::empty(),
        }
    }
}

/// The paths of the first version range, in order, whose value is an object with at least one
/// usable pattern. Every version range is taken to match.
pub open spec fn spec_first_version_paths(entries: Seq<(String, JsonValue)>) -> Option<Seq<(Seq<char>, Seq<Seq<char>>)>>
    decreases entries.len(),
{
    if entries.len() == 0 {
        None
    } else {
        match entries[0].1 {
            JsonValue::Object(m) => if spec_paths_of(m.entries@).len() > 0 {
                Some(spec_paths_of(m.entries@))
            } else {
                spec_first_version_paths(entries.skip(1))
            },
            _ => spec_first_version_paths(entries.skip(1)),
        }
    }
}

pub open spec fn version_paths_view(v: Seq<(String, Vec<String>)>) -> Seq<(Seq<char>, Seq<Seq<char>>)> {
    v.map_values(|p: (String, Vec<String>)| (p.0@, strings_view(p.1@)))
}

fn strings_of(values: &Vec<JsonValue>) -> (r: Vec<String>)
    ensures
        strings_view(r@) == spec_strings_of(values@),
{
    let mut out: Vec<String> = Vec::new();
    let mut i: usize = 0;
    proof {
        assert(values@.take(0) =~= Seq::<JsonValue>::empty());
        assert(strings_view(out@) =~= Seq::<Seq<char>>::empty());
    }
    while i < values.len()
        invariant
            i <= values@.len(),
            strings_view(out@) == spec_strings_of(values@.take(i as int)),
        decreases values.len() - i,
    {
        proof {
            assert(values@.take(i as int + 1).drop_last() =~= values@.take(i as int));
            assert(values@.take(i as int + 1).last() == values@[i as int]);
        }
        let ghost before = out@;
        if let Some(t) = values[i].as_str() {
            out.push(t.to_owned());
            proof {
                assert(strings_view(out@) =~= strings_view(before).push(t@));
            }
        }
        proof {
            assert(strings_view(out@) =~= spec_strings_of(values@.take(i as int + 1)));
        }
        i = i + 1;
    }
    proof {
        assert(values@.take(values@.len() as int) =~= values@);
    }
    out
}

fn paths_of(m: &JsonObject) -> (r: Vec<(String, Vec<String>)>)
    ensures
        version_paths_view(r@) == spec_paths_of(m.entries@),
{
    let ghost es = m.entries@;
    let mut out: Vec<(String, Vec<String>)> = Vec::new();
    let mut i: usize = 0;
    proof {
        assert(es.take(0) =~= Seq::<(String, JsonValue)>::empty());
        assert(version_paths_view(out@) =~= Seq::<(Seq<char>, Seq<Seq<char>>)>::empty());
    }
    while i < m.entries.len()
        invariant
            i <= es.len(),
            es == m.entries@,
            version_paths_view(out@) == spec_paths_of(es.take(i as int)),
        decreases m.entries.len() - i,
    {
        proof {
            assert(es.take(i as int + 1).drop_last() =~= es.take(i as int));
            assert(es.take(i as int + 1).last() == es[i as int]);
        }
        let ghost before = out@;
        let key = &m.entries[i].0;
        match &m.entries[i].1 {
            JsonValue::Array(a) => {
                let targets = strings_of(a);
                out.push((key.clone(), targets));
                proof {
                    assert(version_paths_view(out@) =~= version_paths_view(before).push((key@, spec_strings_of(a@))));
                }
            },
            JsonValue::String(t) => {
                let mut targets: Vec<String> = Vec::new();
                targets.push(t.clone());
                out.push((key.clone(), targets));
                proof {
                    assert(strings_view(targets@) =~= seq![t@]);
                    assert(version_paths_view(out@) =~= version_paths_view(before).push((key@, seq![t@])));
                }
            },
            _ => {
                proof {
                    assert(version_paths_view(out@) =~= version_paths_view(before) + Seq::<(Seq<char>, Seq<Seq<char>>)>::empty());
                }
            },
        }
        proof {
            assert(version_paths_view(out@) =~= spec_paths_of(es.take(i as int + 1)));
        }
        i = i + 1;
    }
    proof {
        assert(es.take(es.len() as int) =~= es);
    }
    out
}

/// The path mappings of the first usable `typesVersions` entry (see
/// [`spec_first_version_paths`]).
pub fn dts_get_matching_version_paths(pkg: &PackageJson) -> (r: Option<Vec<(String, Vec<String>)>>)
    ensures
        match spec_field(pkg.root, "typesVersions"@) {
            Some(JsonValue::Object(o)) => match spec_first_version_paths(o.entries@) {
                Some(p) => r matches Some(v) && version_paths_view(v@) == p,
                None => r is None,
            },
            _ => r is None,
        },
{
    let types_versions = match pkg.types_versions() {
        Some(m) => m.0,
        None => return None,
    };
    let ghost es = types_versions.entries@;
    let mut i: usize = 0;
    proof {
        assert(es.skip(0) =~= es);
    }
    while i < types_versions.entries.len()
        invariant
            i <= es.len(),
            es == types_versions.entries@,
            spec_field(pkg.root, "typesVersions"@) == Some(JsonValue::Object(*types_versions)),
            spec_first_version_paths(es) == spec_first_version_paths(es.skip(i as int)),
        decreases types_versions.entries.len() - i,
    {
        proof {
            assert(es.skip(i as int)[0] == es[i as int]);
            assert(es.skip(i as int).skip(1) =~= es.skip(i as int + 1));
        }
        if let Some(m) = types_versions.entries[i].1.as_object() {
            let result = paths_of(m);
            if result.len() > 0 {
                proof {
                    assert(version_paths_view(result@).len() > 0);
                }
                return Some(result);
            }
        }
        i = i + 1;
    }
    None
}

/// The entry of a package directory for declaration resolution: `typings`, then `types`, when
/// declarations are wanted; otherwise, or when neither is set, the `main` field when any
/// extension is wanted.
pub open spec fn spec_dts_package_entry(root: JsonValue, extensions: Extensions) -> Option<Seq<char>> {
    let declared = if extensions.spec_contains(Extensions(DECLARATION_BITS)) {
        match spec_field_str(root, "typings"@) {
            Some(t) => Some(t),
            None => spec_field_str(root, "types"@),
        }
    } else {
        None
    };
    if declared is None && (extensions.0 & (TYPESCRIPT_BITS | JAVASCRIPT_BITS | DECLARATION_BITS)) != 0 {
        spec_field_str(root, "main"@)
    } else {
        declared
    }
}

/// See [`spec_dts_package_entry`].
pub fn dts_package_entry<'a>(pkg: &'a PackageJson, extensions: Extensions) -> (r: Option<&'a str>)
    ensures
        opt_str_view(r) == spec_dts_package_entry(pkg.root, extensions),
{
    let mut entry: Option<&'a str> = None;
    if extensions.contains(Extensions::declaration()) {
        entry = match pkg.typings() {
            Some(t) => Some(t),
            None => pkg.types(),
        };
    }
    let all = Extensions::typescript().union(Extensions::javascript()).union(Extensions::declaration());
    proof {
        let bits = all.0;
        assert(bits == (TYPESCRIPT_BITS | JAVASCRIPT_BITS | DECLARATION_BITS)) by (bit_vector)
            requires
                bits == ((1u8 | 2u8) | 4u8),
        ;
    }
    if entry.is_none() && extensions.intersects(all) {
        let mut main_fields: Vec<String> = Vec::new();
        main_fields.push("main".to_owned());
        let mains = pkg.main_fields(main_fields.as_slice());
        proof {
            assert(main_fields@.drop_last() =~= Seq::<String>::empty());
            assert(main_fields@.last()@ == "main"@);
            reveal_with_fuel(spec_main_fields, 2);
            let m = spec_main_fields(pkg.root, main_fields@);
            assert(m =~= match spec_field_str(pkg.root, "main"@) {
                Some(s) => seq![s],
                None => Seq::<Seq<char>>::empty(),
            });
            assert(crate::package_json::strs_view(mains@) == m);
            if mains@.len() > 0 {
                assert(crate::package_json::strs_view(mains@)[0] == mains@[0]@);
            }
        }
        entry = if mains.len() > 0 {
            Some(mains[0])
        } else {
            None
        };
    }
    entry
}

/// The specifier looked up through `typesVersions` for a package directory: its entry, or
/// `index`.
pub fn dts_version_paths_specifier<'a>(pkg: &'a PackageJson, extensions: Extensions) -> (r: &'a str)
    ensures
        r@ == match spec_dts_package_entry(pkg.root, extensions) {
            Some(e) => e,
            None => "index"@,
        },
{
    match dts_package_entry(pkg, extensions) {
        Some(e) => e,
        None => "index",
    }
}



// ---------------------------------------------------------------------------------------------
// Routing a specifier
// ---------------------------------------------------------------------------------------------

/// How a declaration lookup goes on with a specifier (query and fragment removed). Before any
/// route but `Relative`, the `paths` and `baseUrl` of the tsconfig are tried.
#[derive(Debug, Clone, Copy, PartialEq, Eq, Structural)]
pub enum DtsRoute {
    /// `./x`, `../x` or `/x`: joined onto the directory of the importing file.
    Relative,
    /// `#x`: the `imports` of the enclosing package.
    PackageImports,
    /// A URI such as `node:fs`: never a declaration file.
    Scheme,
    /// A bare specifier: the package itself, then `node_modules`.
    Bare,
}

pub open spec fn spec_dts_route(specifier: Seq<char>) -> DtsRoute {
    if specifier.len() > 0 && (specifier[0] == '.' || specifier[0] == '/') {
        DtsRoute::Relative
    } else if specifier.len() > 0 && specifier[0] == '#' {
        DtsRoute::PackageImports
    } else if specifier.contains(':') {
        DtsRoute::Scheme
    } else {
        DtsRoute::Bare
    }
}

/// The route of `specifier` (see [`spec_dts_route`]).
pub fn dts_route(specifier: &str) -> (r: DtsRoute)
    ensures
        r == spec_dts_route(specifier@),
{
    let chars = str_chars(specifier);
    if chars.len() > 0 && (chars[0] == '.' || chars[0] == '/') {
        return DtsRoute::Relative;
    }
    if chars.len() > 0 && chars[0] == '#' {
        return DtsRoute::PackageImports;
    }
    let mut i: usize = 0;
    while i < chars.len()
        invariant
            i <= chars@.len(),
            chars@ == specifier@,
            !(specifier@.len() > 0 && (specifier@[0] == '.' || specifier@[0] == '/' || specifier@[0] == '#')),
            forall|k: int| 0 <= k < i ==> chars@[k] != ':',
        decreases chars.len() - i,
    {
        if chars[i] == ':' {
            proof {
                assert(specifier@[i as int] == ':');
                assert(specifier@.contains(':'));
            }
            return DtsRoute::Scheme;
        }
        i = i + 1;
    }
    DtsRoute::Bare
}

// ---------------------------------------------------------------------------------------------
// Candidate paths
// ---------------------------------------------------------------------------------------------

/// `base` followed by each of `exts`, in order.
pub open spec fn with_each_extension(base: Seq<char>, exts: Seq<Seq<char>>) -> Seq<Seq<char>> {
    exts.map_values(|e: Seq<char>| base + e)
}

proof fn lemma_known_extension_is_suffix(path: Seq<char>)
    ensures
        spec_dts_known_extension(path) matches Some(e) ==> e.len() <= path.len() && path.skip(
            path.len() - e.len(),
        ) == e,
{
    lemma_rfind_dot(path);
}

fn push_with_each(out: &mut Vec<String>, base: &str, exts: &Vec<String>)
    ensures
        strings_view(final(out)@) == strings_view(old(out)@) + with_each_extension(base@, strings_view(exts@)),
{
    let ghost start = strings_view(out@);
    let ghost all = with_each_extension(base@, strings_view(exts@));
    let mut i: usize = 0;
    proof {
        assert(start + all.take(0) =~= start);
    }
    while i < exts.len()
        invariant
            i <= exts@.len(),
            all == with_each_extension(base@, strings_view(exts@)),
            strings_view(out@) == start + all.take(i as int),
        decreases exts.len() - i,
    {
        let ghost before = out@;
        let candidate = base.to_owned().concat(exts[i].as_str());
        out.push(candidate);
        proof {
            assert(strings_view(out@) =~= strings_view(before).push(base@ + exts@[i as int]@));
            assert(all.take(i as int + 1) =~= all.take(i as int).push(base@ + exts@[i as int]@));
        }
        i = i + 1;
    }
    proof {
        assert(all.take(exts@.len() as int) =~= all);
    }
}

/// The files that TypeScript's `loadModuleFromFile` probes for `candidate`, in order: the
/// candidate with its known extension replaced (`./foo.js` gives `./foo.ts` first), then the
/// candidate with an extension added (`./foo` gives `./foo.ts` first). The first of them that is
/// a file is the resolution.
pub open spec fn spec_dts_file_candidates(candidate: Seq<char>, extensions: Extensions) -> Seq<Seq<char>> {
    let replaced = match spec_dts_known_extension(candidate) {
        Some(ext) => with_each_extension(
            candidate.take(candidate.len() - ext.len()),
            spec_dts_extensions_to_try(extensions, ext),
        ),
        None => Seq::empty(),
    };
    replaced + with_each_extension(candidate, spec_dts_extensions_to_try(extensions, Seq::empty()))
}

/// The files probed for `candidate` (see [`spec_dts_file_candidates`]).
pub fn dts_file_candidates(candidate: &str, extensions: Extensions) -> (r: Vec<String>)
    ensures
        strings_view(r@) == spec_dts_file_candidates(candidate@, extensions),
{
    let mut out: Vec<String> = Vec::new();
    proof {
        assert(strings_view(out@) =~= Seq::<Seq<char>>::empty());
        lemma_known_extension_is_suffix(candidate@);
    }
    if let Some(ext) = dts_get_known_extension(candidate) {
        let chars = str_chars(candidate);
        let ext_len = str_chars(ext.as_str()).len();
        let base = chars_to_string(sub_chars(chars.as_slice(), 0, chars.len() - ext_len).as_slice());
        proof {
            assert(base@ =~= candidate@.take(candidate@.len() - ext@.len()));
        }
        let exts = dts_extensions_to_try(extensions, ext.as_str());
        push_with_each(&mut out, base.as_str(), &exts);
    }
    let none = String::new();
    let exts = dts_extensions_to_try(extensions, none.as_str());
    proof {
        assert(none@ =~= Seq::<char>::empty());
    }
    push_with_each(&mut out, candidate, &exts);
    out
}

/// `s` with every `*` replaced by `m`.
pub open spec fn spec_replace_stars(s: Seq<char>, m: Seq<char>) -> Seq<char>
    decreases s.len(),
{
    if s.len() == 0 {
        Seq::empty()
    } else if s.last() == '*' {
        spec_replace_stars(s.drop_last(), m) + m
    } else {
        spec_replace_stars(s.drop_last(), m).push(s.last())
    }
}

fn replace_stars(s: &str, m: &str) -> (r: String)
    ensures
        r@ == spec_replace_stars(s@, m@),
{
    let chars = str_chars(s);
    let mc = str_chars(m);
    let mut out: Vec<char> = Vec::new();
    let mut i: usize = 0;
    proof {
        assert(chars@.take(0) =~= Seq::<char>::empty());
    }
    while i < chars.len()
        invariant
            i <= chars@.len(),
            chars@ == s@,
            mc@ == m@,
            out@ == spec_replace_stars(chars@.take(i as int), m@),
        decreases chars.len() - i,
    {
        proof {
            assert(chars@.take(i as int + 1).drop_last() =~= chars@.take(i as int));
        }
        if chars[i] == '*' {
            let mut j: usize = 0;
            let ghost before = out@;
            while j < mc.len()
                invariant
                    j <= mc@.len(),
                    out@ == before + mc@.take(j as int),
                decreases mc.len() - j,
            {
                out.push(mc[j]);
                proof {
                    assert(mc@.take(j as int + 1) =~= mc@.take(j as int).push(mc@[j as int]));
                }
                j = j + 1;
            }
            proof {
                assert(mc@.take(mc@.len() as int) =~= mc@);
            }
        } else {
            out.push(chars[i]);
        }
        i = i + 1;
    }
    proof {
        assert(chars@.take(chars@.len() as int) =~= chars@);
    }
    chars_to_string(out.as_slice())
}

/// The paths tried for a `typesVersions` lookup of `specifier` in `base_dir`: for each pattern
/// that matches, in order, each of its targets with every `*` replaced by what the pattern's `*`
/// matched, joined onto `base_dir`. Each is tried as a file, then, when it is a directory, as a
/// directory.
pub open spec fn spec_dts_version_path_candidates(
    paths: Seq<(Seq<char>, Seq<Seq<char>>)>,
    specifier: Seq<char>,
    base_dir: Seq<char>,
) -> Seq<Seq<char>>
    decreases paths.len(),
{
    if paths.len() == 0 {
        Seq::empty()
    } else {
        let earlier = spec_dts_version_path_candidates(paths.drop_last(), specifier, base_dir);
        match spec_dts_match_pattern(paths.last().0, specifier) {
            Some(m) => earlier + paths.last().1.map_values(
                |t: Seq<char>| spec_join(base_dir, spec_replace_stars(t, m)),
            ),
            None => earlier,
        }
    }
}

/// The paths tried for a `typesVersions` lookup (see [`spec_dts_version_path_candidates`]).
pub fn dts_version_path_candidates(paths: &Vec<(String, Vec<String>)>, specifier: &str, base_dir: &str) -> (r: Vec<String>)
    ensures
        strings_view(r@) == spec_dts_version_path_candidates(version_paths_view(paths@), specifier@, base_dir@),
{
    let ghost pv = version_paths_view(paths@);
    let mut out: Vec<String> = Vec::new();
    let mut i: usize = 0;
    proof {
        assert(pv.take(0) =~= Seq::<(Seq<char>, Seq<Seq<char>>)>::empty());
        assert(strings_view(out@) =~= Seq::<Seq<char>>::empty());
    }
    while i < paths.len()
        invariant
            i <= paths@.len(),
            pv == version_paths_view(paths@),
            strings_view(out@) == spec_dts_version_path_candidates(pv.take(i as int), specifier@, base_dir@),
        decreases paths.len() - i,
    {
        let (pattern, targets) = &paths[i];
        proof {
            assert(pv.take(i as int + 1).drop_last() =~= pv.take(i as int));
            assert(pv.take(i as int + 1).last() == (pattern@, strings_view(targets@)));
        }
        if let Some(m) = dts_match_pattern(pattern.as_str(), specifier) {
            let ghost start = strings_view(out@);
            let ghost joined = strings_view(targets@).map_values(
                |t: Seq<char>| spec_join(base_dir@, spec_replace_stars(t, m@)),
            );
            let mut j: usize = 0;
            proof {
                assert(start + joined.take(0) =~= start);
            }
            while j < targets.len()
                invariant
                    j <= targets@.len(),
                    joined == strings_view(targets@).map_values(
                        |t: Seq<char>| spec_join(base_dir@, spec_replace_stars(t, m@)),
                    ),
                    strings_view(out@) == start + joined.take(j as int),
                decreases targets.len() - j,
            {
                let target = replace_stars(targets[j].as_str(), m.as_str());
                let candidate = base_dir.normalize_with(target.as_str());
                let ghost before = out@;
                out.push(candidate);
                proof {
                    assert(strings_view(out@) =~= strings_view(before).push(joined[j as int]));
                    assert(joined.take(j as int + 1) =~= joined.take(j as int).push(joined[j as int]));
                }
                j = j + 1;
            }
            proof {
                assert(joined.take(targets@.len() as int) =~= joined);
            }
        }
        i = i + 1;
    }
    proof {
        assert(pv.take(paths@.len() as int) =~= pv);
    }
    out
}

// ---------------------------------------------------------------------------------------------
// Laws of the extension groups, the module type and the package entry
// ---------------------------------------------------------------------------------------------

/// A flag is in a set of extensions exactly when the set shares a bit with it.
proof fn lemma_flags(extensions: Extensions)
    ensures
        extensions.spec_contains(Extensions(TYPESCRIPT_BITS)) <==> (extensions.0 & 1u8) != 0,
        extensions.spec_contains(Extensions(JAVASCRIPT_BITS)) <==> (extensions.0 & 2u8) != 0,
        extensions.spec_contains(Extensions(DECLARATION_BITS)) <==> (extensions.0 & 4u8) != 0,
        ((extensions.0 & (TYPESCRIPT_BITS | JAVASCRIPT_BITS | DECLARATION_BITS)) != 0) <==> ((extensions.0 & 1u8)
            != 0 || (extensions.0 & 2u8) != 0 || (extensions.0 & 4u8) != 0),
{
    let e = extensions.0;
    assert(((e & 1u8) == 1u8 <==> (e & 1u8) != 0) && ((e & 2u8) == 2u8 <==> (e & 2u8) != 0) && ((e & 4u8) == 4u8
        <==> (e & 4u8) != 0) && (((e & (1u8 | 2u8 | 4u8)) != 0) <==> ((e & 1u8) != 0 || (e & 2u8) != 0 || (e
        & 4u8) != 0))) by (bit_vector);
}

/// The known extensions are distinct texts.
proof fn lemma_listed_extensions_distinct()
    ensures
        ".mjs"@ != ".mts"@,
        ".mjs"@ != ".d.mts"@,
        ".mjs"@ != ".cjs"@,
        ".mjs"@ != ".cts"@,
        ".mjs"@ != ".d.cts"@,
        ".mjs"@ != ".json"@,
        ".mjs"@ != ".tsx"@,
        ".mjs"@ != ".jsx"@,
        ".mjs"@ != ".ts"@,
        ".mjs"@ != ".d.ts"@,
        ".mjs"@ != ".js"@,
        ".mts"@ != ".d.mts"@,
        ".mts"@ != ".cjs"@,
        ".mts"@ != ".cts"@,
        ".mts"@ != ".d.cts"@,
        ".mts"@ != ".json"@,
        ".mts"@ != ".tsx"@,
        ".mts"@ != ".jsx"@,
        ".mts"@ != ".ts"@,
        ".mts"@ != ".d.ts"@,
        ".mts"@ != ".js"@,
        ".d.mts"@ != ".cjs"@,
        ".d.mts"@ != ".cts"@,
        ".d.mts"@ != ".d.cts"@,
        ".d.mts"@ != ".json"@,
        ".d.mts"@ != ".tsx"@,
        ".d.mts"@ != ".jsx"@,
        ".d.mts"@ != ".ts"@,
        ".d.mts"@ != ".d.ts"@,
        ".d.mts"@ != ".js"@,
        ".cjs"@ != ".cts"@,
        ".cjs"@ != ".d.cts"@,
        ".cjs"@ != ".json"@,
        ".cjs"@ != ".tsx"@,
        ".cjs"@ != ".jsx"@,
        ".cjs"@ != ".ts"@,
        ".cjs"@ != ".d.ts"@,
        ".cjs"@ != ".js"@,
        ".cts"@ != ".d.cts"@,
        ".cts"@ != ".json"@,
        ".cts"@ != ".tsx"@,
        ".cts"@ != ".jsx"@,
        ".cts"@ != ".ts"@,
        ".cts"@ != ".d.ts"@,
        ".cts"@ != ".js"@,
        ".d.cts"@ != ".json"@,
        ".d.cts"@ != ".tsx"@,
        ".d.cts"@ != ".jsx"@,
        ".d.cts"@ != ".ts"@,
        ".d.cts"@ != ".d.ts"@,
        ".d.cts"@ != ".js"@,
        ".json"@ != ".tsx"@,
        ".json"@ != ".jsx"@,
        ".json"@ != ".ts"@,
        ".json"@ != ".d.ts"@,
        ".json"@ != ".js"@,
        ".tsx"@ != ".jsx"@,
        ".tsx"@ != ".ts"@,
        ".tsx"@ != ".d.ts"@,
        ".tsx"@ != ".js"@,
        ".jsx"@ != ".ts"@,
        ".jsx"@ != ".d.ts"@,
        ".jsx"@ != ".js"@,
        ".ts"@ != ".d.ts"@,
        ".ts"@ != ".js"@,
        ".d.ts"@ != ".js"@,
        forall|x: Seq<char>| x.len() == 0 ==> x != ".mjs"@ && x != ".mts"@ && x != ".d.mts"@ && x != ".cjs"@ && x != ".cts"@ && x != ".d.cts"@ && x != ".json"@ && x != ".tsx"@ && x != ".jsx"@ && x != ".ts"@ && x != ".d.ts"@ && x != ".js"@,
{
    reveal_strlit(".mjs");
    reveal_strlit(".mts");
    reveal_strlit(".d.mts");
    reveal_strlit(".cjs");
    reveal_strlit(".cts");
    reveal_strlit(".d.cts");
    reveal_strlit(".json");
    reveal_strlit(".tsx");
    reveal_strlit(".jsx");
    reveal_strlit(".ts");
    reveal_strlit(".d.ts");
    reveal_strlit(".js");
    assert(".mjs"@ != ".mts"@) by { assert(".mjs"@[2] != ".mts"@[2]); }
    assert(".mjs"@ != ".d.mts"@) by { assert(".mjs"@.len() != ".d.mts"@.len()); }
    assert(".mjs"@ != ".cjs"@) by { assert(".mjs"@[1] != ".cjs"@[1]); }
    assert(".mjs"@ != ".cts"@) by { assert(".mjs"@[1] != ".cts"@[1]); }
    assert(".mjs"@ != ".d.cts"@) by { assert(".mjs"@.len() != ".d.cts"@.len()); }
    assert(".mjs"@ != ".json"@) by { assert(".mjs"@.len() != ".json"@.len()); }
    assert(".mjs"@ != ".tsx"@) by { assert(".mjs"@[1] != ".tsx"@[1]); }
    assert(".mjs"@ != ".jsx"@) by { assert(".mjs"@[1] != ".jsx"@[1]); }
    assert(".mjs"@ != ".ts"@) by { assert(".mjs"@.len() != ".ts"@.len()); }
    assert(".mjs"@ != ".d.ts"@) by { assert(".mjs"@.len() != ".d.ts"@.len()); }
    assert(".mjs"@ != ".js"@) by { assert(".mjs"@.len() != ".js"@.len()); }
    assert(".mts"@ != ".d.mts"@) by { assert(".mts"@.len() != ".d.mts"@.len()); }
    assert(".mts"@ != ".cjs"@) by { assert(".mts"@[1] != ".cjs"@[1]); }
    assert(".mts"@ != ".cts"@) by { assert(".mts"@[1] != ".cts"@[1]); }
    assert(".mts"@ != ".d.cts"@) by { assert(".mts"@.len() != ".d.cts"@.len()); }
    assert(".mts"@ != ".json"@) by { assert(".mts"@.len() != ".json"@.len()); }
    assert(".mts"@ != ".tsx"@) by { assert(".mts"@[1] != ".tsx"@[1]); }
    assert(".mts"@ != ".jsx"@) by { assert(".mts"@[1] != ".jsx"@[1]); }
    assert(".mts"@ != ".ts"@) by { assert(".mts"@.len() != ".ts"@.len()); }
    assert(".mts"@ != ".d.ts"@) by { assert(".mts"@.len() != ".d.ts"@.len()); }
    assert(".mts"@ != ".js"@) by { assert(".mts"@.len() != ".js"@.len()); }
    assert(".d.mts"@ != ".cjs"@) by { assert(".d.mts"@.len() != ".cjs"@.len()); }
    assert(".d.mts"@ != ".cts"@) by { assert(".d.mts"@.len() != ".cts"@.len()); }
    assert(".d.mts"@ != ".d.cts"@) by { assert(".d.mts"@[3] != ".d.cts"@[3]); }
    assert(".d.mts"@ != ".json"@) by { assert(".d.mts"@.len() != ".json"@.len()); }
    assert(".d.mts"@ != ".tsx"@) by { assert(".d.mts"@.len() != ".tsx"@.len()); }
    assert(".d.mts"@ != ".jsx"@) by { assert(".d.mts"@.len() != ".jsx"@.len()); }
    assert(".d.mts"@ != ".ts"@) by { assert(".d.mts"@.len() != ".ts"@.len()); }
    assert(".d.mts"@ != ".d.ts"@) by { assert(".d.mts"@.len() != ".d.ts"@.len()); }
    assert(".d.mts"@ != ".js"@) by { assert(".d.mts"@.len() != ".js"@.len()); }
    assert(".cjs"@ != ".cts"@) by { assert(".cjs"@[2] != ".cts"@[2]); }
    assert(".cjs"@ != ".d.cts"@) by { assert(".cjs"@.len() != ".d.cts"@.len()); }
    assert(".cjs"@ != ".json"@) by { assert(".cjs"@.len() != ".json"@.len()); }
    assert(".cjs"@ != ".tsx"@) by { assert(".cjs"@[1] != ".tsx"@[1]); }
    assert(".cjs"@ != ".jsx"@) by { assert(".cjs"@[1] != ".jsx"@[1]); }
    assert(".cjs"@ != ".ts"@) by { assert(".cjs"@.len() != ".ts"@.len()); }
    assert(".cjs"@ != ".d.ts"@) by { assert(".cjs"@.len() != ".d.ts"@.len()); }
    assert(".cjs"@ != ".js"@) by { assert(".cjs"@.len() != ".js"@.len()); }
    assert(".cts"@ != ".d.cts"@) by { assert(".cts"@.len() != ".d.cts"@.len()); }
    assert(".cts"@ != ".json"@) by { assert(".cts"@.len() != ".json"@.len()); }
    assert(".cts"@ != ".tsx"@) by { assert(".cts"@[1] != ".tsx"@[1]); }
    assert(".cts"@ != ".jsx"@) by { assert(".cts"@[1] != ".jsx"@[1]); }
    assert(".cts"@ != ".ts"@) by { assert(".cts"@.len() != ".ts"@.len()); }
    assert(".cts"@ != ".d.ts"@) by { assert(".cts"@.len() != ".d.ts"@.len()); }
    assert(".cts"@ != ".js"@) by { assert(".cts"@.len() != ".js"@.len()); }
    assert(".d.cts"@ != ".json"@) by { assert(".d.cts"@.len() != ".json"@.len()); }
    assert(".d.cts"@ != ".tsx"@) by { assert(".d.cts"@.len() != ".tsx"@.len()); }
    assert(".d.cts"@ != ".jsx"@) by { assert(".d.cts"@.len() != ".jsx"@.len()); }
    assert(".d.cts"@ != ".ts"@) by { assert(".d.cts"@.len() != ".ts"@.len()); }
    assert(".d.cts"@ != ".d.ts"@) by { assert(".d.cts"@.len() != ".d.ts"@.len()); }
    assert(".d.cts"@ != ".js"@) by { assert(".d.cts"@.len() != ".js"@.len()); }
    assert(".json"@ != ".tsx"@) by { assert(".json"@.len() != ".tsx"@.len()); }
    assert(".json"@ != ".jsx"@) by { assert(".json"@.len() != ".jsx"@.len()); }
    assert(".json"@ != ".ts"@) by { assert(".json"@.len() != ".ts"@.len()); }
    assert(".json"@ != ".d.ts"@) by { assert(".json"@[1] != ".d.ts"@[1]); }
    assert(".json"@ != ".js"@) by { assert(".json"@.len() != ".js"@.len()); }
    assert(".tsx"@ != ".jsx"@) by { assert(".tsx"@[1] != ".jsx"@[1]); }
    assert(".tsx"@ != ".ts"@) by { assert(".tsx"@.len() != ".ts"@.len()); }
    assert(".tsx"@ != ".d.ts"@) by { assert(".tsx"@.len() != ".d.ts"@.len()); }
    assert(".tsx"@ != ".js"@) by { assert(".tsx"@.len() != ".js"@.len()); }
    assert(".jsx"@ != ".ts"@) by { assert(".jsx"@.len() != ".ts"@.len()); }
    assert(".jsx"@ != ".d.ts"@) by { assert(".jsx"@.len() != ".d.ts"@.len()); }
    assert(".jsx"@ != ".js"@) by { assert(".jsx"@.len() != ".js"@.len()); }
    assert(".ts"@ != ".d.ts"@) by { assert(".ts"@.len() != ".d.ts"@.len()); }
    assert(".ts"@ != ".js"@) by { assert(".ts"@[1] != ".js"@[1]); }
    assert(".d.ts"@ != ".js"@) by { assert(".d.ts"@.len() != ".js"@.len()); }
}

/// The extensions tried for a candidate go by the group of its known extension, whatever the
/// set of extensions wanted: every member of a group is tried alike, and a group tries its own
/// TypeScript, declaration and JavaScript forms, each only when that kind is wanted, in that
/// order. The CommonJS group (`.cjs`, `.cts`, `.d.cts`) tries `.cts`, `.d.cts`, `.cjs`; the
/// ES-module group (`.mjs`, `.mts`, `.d.mts`) tries `.mts`, `.d.mts`, `.mjs`; `.tsx` and `.jsx`
/// try `.tsx`, `.ts`, `.d.ts`, `.jsx`, `.js`; `.ts`, `.d.ts`, `.js` and no extension try `.ts`,
/// `.tsx`, `.d.ts`, `.js`, `.jsx`; `.json` tries `.d.json.ts`; any other extension `x` tries
/// only `.d{x}.ts`, when declarations are wanted.
pub proof fn law_extension_groups(extensions: Extensions, ext: Seq<char>)
    ensures
        ({
            let ts = (extensions.0 & 1u8) != 0;
            let js = (extensions.0 & 2u8) != 0;
            let dts = (extensions.0 & 4u8) != 0;
            let tried = spec_dts_extensions_to_try(extensions, ext);
            &&& (ext == ".cjs"@ || ext == ".cts"@ || ext == ".d.cts"@) ==> tried == when(ts, seq![".cts"@]) + when(
                dts,
                seq![".d.cts"@],
            ) + when(js, seq![".cjs"@])
            &&& (ext == ".mjs"@ || ext == ".mts"@ || ext == ".d.mts"@) ==> tried == when(ts, seq![".mts"@]) + when(
                dts,
                seq![".d.mts"@],
            ) + when(js, seq![".mjs"@])
            &&& (ext == ".tsx"@ || ext == ".jsx"@) ==> tried == when(ts, seq![".tsx"@, ".ts"@]) + when(
                dts,
                seq![".d.ts"@],
            ) + when(js, seq![".jsx"@, ".js"@])
            &&& (ext == ".ts"@ || ext == ".d.ts"@ || ext == ".js"@ || ext.len() == 0) ==> tried == when(
                ts,
                seq![".ts"@, ".tsx"@],
            ) + when(dts, seq![".d.ts"@]) + when(js, seq![".js"@, ".jsx"@])
            &&& ext == ".json"@ ==> tried == when(dts, seq![".d.json.ts"@])
            &&& !is_listed_extension(ext) && ext != ".d.ts"@ && ext != ".d.mts"@ && ext != ".d.cts"@
                && ext.len() > 0 ==> tried == when(dts, seq![".d"@ + ext + ".ts"@])
        }),
        spec_dts_extensions_to_try(extensions, ".cjs"@) == spec_dts_extensions_to_try(extensions, ".cts"@),
        spec_dts_extensions_to_try(extensions, ".d.cts"@) == spec_dts_extensions_to_try(extensions, ".cts"@),
        spec_dts_extensions_to_try(extensions, ".mjs"@) == spec_dts_extensions_to_try(extensions, ".mts"@),
        spec_dts_extensions_to_try(extensions, ".d.mts"@) == spec_dts_extensions_to_try(extensions, ".mts"@),
{
    lemma_flags(extensions);
    lemma_listed_extensions_distinct();
}

/// The module type of a file goes by how its path ends: `.mts` (so `.d.mts` too) is an ES
/// module, `.cts` (so `.d.cts` too) CommonJS, `.json` JSON, and any other path has none.
pub proof fn law_module_type_by_ending(path: Seq<char>)
    ensures
        ends_with(path, ".mts"@) ==> spec_dts_module_type(path) == Some(ModuleType::Module),
        ends_with(path, ".cts"@) ==> spec_dts_module_type(path) == Some(ModuleType::CommonJs),
        ends_with(path, ".json"@) ==> spec_dts_module_type(path) == Some(ModuleType::Json),
        !ends_with(path, ".mts"@) && !ends_with(path, ".cts"@) && !ends_with(path, ".json"@)
            ==> spec_dts_module_type(path) is None,
{
    reveal_strlit(".mts");
    reveal_strlit(".d.mts");
    reveal_strlit(".cts");
    reveal_strlit(".d.cts");
    reveal_strlit(".json");
    let n = path.len();
    if ends_with(path, ".d.mts"@) {
        assert(path.skip(n - 4) =~= path.skip(n - 6).skip(2));
        assert(".d.mts"@.skip(2) =~= ".mts"@);
        assert(ends_with(path, ".mts"@));
    }
    if ends_with(path, ".d.cts"@) {
        assert(path.skip(n - 4) =~= path.skip(n - 6).skip(2));
        assert(".d.cts"@.skip(2) =~= ".cts"@);
        assert(ends_with(path, ".cts"@));
    }
    if ends_with(path, ".cts"@) {
        assert(path.skip(n - 4)[1] == 'c');
        if ends_with(path, ".d.mts"@) {
            assert(path.skip(n - 6)[3] == path.skip(n - 4)[1]);
        }
    }
    if ends_with(path, ".json"@) {
        assert(path.skip(n - 5)[4] == 'n');
        if n >= 4 {
            assert(path.skip(n - 4)[3] == path.skip(n - 5)[4]);
        }
        if n >= 6 {
            assert(path.skip(n - 6)[5] == path.skip(n - 5)[4]);
        }
    }
}

/// The entry of a package directory: when declarations are wanted, its `typings`, else its
/// `types`; when neither gives one, or declarations are not wanted, its `main`, whichever of
/// TypeScript, JavaScript and declarations are wanted, as long as one is; with none wanted,
/// no entry.
pub proof fn law_package_entry(root: JsonValue, extensions: Extensions)
    ensures
        ({
            let ts = (extensions.0 & 1u8) != 0;
            let js = (extensions.0 & 2u8) != 0;
            let dts = (extensions.0 & 4u8) != 0;
            let typings = spec_field_str(root, "typings"@);
            let types = spec_field_str(root, "types"@);
            let entry = spec_dts_package_entry(root, extensions);
            &&& dts && typings is Some ==> entry == typings
            &&& dts && typings is None && types is Some ==> entry == types
            &&& (!dts || (typings is None && types is None)) && (ts || js || dts) ==> entry == spec_field_str(
                root,
                "main"@,
            )
            &&& !ts && !js && !dts ==> entry is None
        }),
{
    lemma_flags(extensions);
}

/// The last dot of `s` is at `k` when `s[k]` is a dot and none follows it.
proof fn lemma_rfind_dot_at(s: Seq<char>, k: int)
    requires
        0 <= k < s.len(),
        s[k] == '.',
        forall|j: int| k < j < s.len() ==> s[j] != '.',
    ensures
        spec_rfind_dot(s) == k,
    decreases s.len(),
{
    if k < s.len() - 1 {
        let d = s.drop_last();
        assert(s.last() == s[s.len() - 1]);
        assert forall|j: int| k < j < d.len() implies d[j] != '.' by {
            assert(d[j] == s[j]);
        }
        lemma_rfind_dot_at(d, k);
    }
}

/// Each listed extension is a dot followed by letters.
proof fn lemma_listed_shape(x: Seq<char>)
    requires
        is_listed_extension(x),
    ensures
        x.len() >= 3,
        x[0] == '.',
        forall|j: int| 1 <= j < x.len() ==> x[j] != '.' && x[j] != '/',
{
    reveal_strlit(".ts");
    reveal_strlit(".tsx");
    reveal_strlit(".mts");
    reveal_strlit(".cts");
    reveal_strlit(".js");
    reveal_strlit(".jsx");
    reveal_strlit(".mjs");
    reveal_strlit(".cjs");
    reveal_strlit(".json");
    assert forall|j: int| 1 <= j < x.len() implies x[j] != '.' && x[j] != '/' by {
        if x == ".ts"@ {
            assert(x == seq!['.', 't', 's']);
        } else if x == ".tsx"@ {
            assert(x == seq!['.', 't', 's', 'x']);
        } else if x == ".mts"@ {
            assert(x == seq!['.', 'm', 't', 's']);
        } else if x == ".cts"@ {
            assert(x == seq!['.', 'c', 't', 's']);
        } else if x == ".js"@ {
            assert(x == seq!['.', 'j', 's']);
        } else if x == ".jsx"@ {
            assert(x == seq!['.', 'j', 's', 'x']);
        } else if x == ".mjs"@ {
            assert(x == seq!['.', 'm', 'j', 's']);
        } else if x == ".cjs"@ {
            assert(x == seq!['.', 'c', 'j', 's']);
        } else {
            assert(x == seq!['.', 'j', 's', 'o', 'n']);
        }
    }
}

/// The known extension of a path is how the path ends: a dot and what follows it, without a
/// separator. A path ending in `.d.ts`, `.d.mts` or `.d.cts` has that compound extension; any
/// other path that ends in one of the listed extensions (`.ts`, `.tsx`, `.mts`, `.cts`, `.js`,
/// `.jsx`, `.mjs`, `.cjs`, `.json`) has that extension.
pub proof fn law_known_extension(path: Seq<char>, x: Seq<char>)
    ensures
        spec_dts_known_extension(path) matches Some(e) ==> ends_with(path, e) && e.len() > 0 && e[0] == '.'
            && !e.contains('/'),
        ends_with(path, ".d.ts"@) ==> spec_dts_known_extension(path) == Some(".d.ts"@),
        ends_with(path, ".d.mts"@) ==> spec_dts_known_extension(path) == Some(".d.mts"@),
        ends_with(path, ".d.cts"@) ==> spec_dts_known_extension(path) == Some(".d.cts"@),
        is_listed_extension(x) && ends_with(path, x) && !ends_with(path, ".d.ts"@) && !ends_with(path, ".d.mts"@)
            && !ends_with(path, ".d.cts"@) ==> spec_dts_known_extension(path) == Some(x),
{
    reveal_strlit(".d.ts");
    reveal_strlit(".d.mts");
    reveal_strlit(".d.cts");
    assert(".d.ts"@ =~= seq!['.', 'd', '.', 't', 's']);
    assert(".d.mts"@ =~= seq!['.', 'd', '.', 'm', 't', 's']);
    assert(".d.cts"@ =~= seq!['.', 'd', '.', 'c', 't', 's']);
    lemma_rfind_dot(path);
    let n = path.len();
    match spec_dts_known_extension(path) {
        Some(e) => {
            if !ends_with(path, ".d.ts"@) && !ends_with(path, ".d.mts"@) && !ends_with(path, ".d.cts"@) {
                let d = spec_rfind_dot(path);
                assert(e == path.skip(d));
                assert(path.skip(n - e.len()) =~= e);
                assert(e[0] == path[d]);
            } else {
                assert(!e.contains('/')) by {
                    if e.contains('/') {
                        let j = choose|j: int| 0 <= j < e.len() && e[j] == '/';
                    }
                }
            }
        },
        None => {},
    }
    if is_listed_extension(x) && ends_with(path, x) && !ends_with(path, ".d.ts"@) && !ends_with(path, ".d.mts"@)
        && !ends_with(path, ".d.cts"@) {
        lemma_listed_shape(x);
        let k = n - x.len();
        assert forall|j: int| k < j < n implies path[j] != '.' by {
            assert(path[j] == path.skip(k)[j - k]);
        }
        assert(path[k] == path.skip(k)[0]);
        lemma_rfind_dot_at(path, k);
        assert(path.skip(k) == x);
        assert(!x.contains('/')) by {
            if x.contains('/') {
                let j = choose|j: int| 0 <= j < x.len() && x[j] == '/';
            }
        }
    }
}

/// With no `*`, the first `*` of a text is past its end.
proof fn lemma_find_star_none(s: Seq<char>)
    requires
        !s.contains('*'),
    ensures
        crate::alias::spec_find_star(s) == s.len(),
    decreases s.len(),
{
    if s.len() > 0 {
        assert(s[0] != '*') by {
            assert(s.contains(s[0]));
        }
        assert(!s.skip(1).contains('*')) by {
            if s.skip(1).contains('*') {
                let j = choose|j: int| 0 <= j < s.skip(1).len() && s.skip(1)[j] == '*';
                assert(s[j + 1] == '*');
            }
        }
        lemma_find_star_none(s.skip(1));
    }
}

/// The first `*` of `prefix * suffix`, when `prefix` has none, is the one after `prefix`.
proof fn lemma_find_star_at(prefix: Seq<char>, suffix: Seq<char>)
    requires
        !prefix.contains('*'),
    ensures
        crate::alias::spec_find_star(prefix + seq!['*'] + suffix) == prefix.len(),
    decreases prefix.len(),
{
    let s = prefix + seq!['*'] + suffix;
    if prefix.len() > 0 {
        assert(prefix[0] != '*') by {
            assert(prefix.contains(prefix[0]));
        }
        let p1 = prefix.skip(1);
        assert(!p1.contains('*')) by {
            if p1.contains('*') {
                let j = choose|j: int| 0 <= j < p1.len() && p1[j] == '*';
                assert(prefix[j + 1] == '*');
            }
        }
        assert(s.skip(1) =~= p1 + seq!['*'] + suffix);
        lemma_find_star_at(p1, suffix);
    } else {
        assert(s[0] == '*');
    }
}

/// A `typesVersions` pattern `prefix*suffix` (no `*` in `prefix`) matches exactly the
/// specifiers `prefix`, some text `m`, then `suffix`, and gives `m`; a pattern without a `*`
/// matches only itself, giving the empty text.
pub proof fn law_match_pattern(prefix: Seq<char>, suffix: Seq<char>, m: Seq<char>, specifier: Seq<char>)
    ensures
        !prefix.contains('*') ==> spec_dts_match_pattern(prefix + seq!['*'] + suffix, prefix + m + suffix) == Some(
            m,
        ),
        !prefix.contains('*') && spec_dts_match_pattern(prefix + seq!['*'] + suffix, specifier) == Some(m)
            ==> specifier == prefix + m + suffix,
        !specifier.contains('*') ==> spec_dts_match_pattern(specifier, specifier) == Some(Seq::<char>::empty()),
        !prefix.contains('*') && prefix != specifier ==> spec_dts_match_pattern(prefix, specifier) is None,
{
    if !prefix.contains('*') {
        lemma_find_star_at(prefix, suffix);
        let pattern = prefix + seq!['*'] + suffix;
        assert(pattern.take(prefix.len() as int) =~= prefix);
        assert(pattern.skip(prefix.len() as int + 1) =~= suffix);
        let s = prefix + m + suffix;
        assert(s.take(prefix.len() as int) =~= prefix);
        assert(s.skip(s.len() - suffix.len()) =~= suffix);
        assert(s.subrange(prefix.len() as int, s.len() - suffix.len()) =~= m);
        if spec_dts_match_pattern(pattern, specifier) == Some(m) {
            let t = specifier;
            assert(t =~= t.take(prefix.len() as int) + t.subrange(prefix.len() as int, t.len() - suffix.len())
                + t.skip(t.len() - suffix.len()));
            if suffix.len() == 0 {
                assert(t.skip(t.len() - suffix.len()) =~= suffix);
            }
        }
        lemma_find_star_none(prefix);
    }
    if !specifier.contains('*') {
        lemma_find_star_none(specifier);
    }
}

/// The `@types` name of a scoped package `@scope/name` is `scope__name`; an unscoped name is
/// its own.
pub proof fn law_mangle_scoped_name(scope: Seq<char>, name: Seq<char>)
    ensures
        !scope.contains('/') ==> spec_dts_mangle_scoped_name(seq!['@'] + scope + seq!['/'] + name) == scope + seq![
            '_',
            '_',
        ] + name,
        (name.len() == 0 || name[0] != '@') ==> spec_dts_mangle_scoped_name(name) == name,
{
    if !scope.contains('/') {
        let full = seq!['@'] + scope + seq!['/'] + name;
        let rest = full.skip(1);
        assert(rest =~= scope + seq!['/'] + name);
        crate::text::lemma_find_either(rest, '/', '/');
        let i = crate::text::spec_find_either(rest, '/', '/');
        assert(rest[scope.len() as int] == '/');
        if i < scope.len() {
            assert(rest[i] == scope[i]);
            assert(scope.contains(scope[i]));
        }
        assert(i == scope.len());
        assert(rest.take(i) =~= scope);
        assert(rest.skip(i + 1) =~= name);
    }
}

} // verus!
