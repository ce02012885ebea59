//! Compiled `alias` / `fallback` options: which alias keys a specifier can match, and what a
//! matched alias rewrites the specifier to.
use vstd::prelude::*;
use vstd::utf8::encode_utf8;

use crate::context::ResolveContext;
use crate::error::ResolveError;
use crate::path::{spec_join, spec_normalize, PathUtil};
use crate::text::{chars_to_string, str_chars, sub_chars};

verus! {

broadcast use vstd::string::group_string_axioms;

/// One value of an alias: a path (or specifier) to resolve instead, or `false` (ignore).
#[derive(Debug, Clone, PartialEq, Eq)]
pub enum AliasValue {
    Path(String),
    Ignore,
}

/// The mathematical counterpart of [`AliasValue`].
pub enum AliasValueView {
    Path(Seq<char>),
    Ignore,
}

impl View for AliasValue {
    type V = AliasValueView;

    open spec fn view(&self) -> AliasValueView {
        match self {
            AliasValue::Path(p) => AliasValueView::Path(p@),
            AliasValue::Ignore => AliasValueView::Ignore,
        }
    }
}

pub open spec fn alias_values_view(v: Seq<AliasValue>) -> Seq<AliasValueView> {
    v.map_values(|a: AliasValue| a@)
}

/// How an alias key is compared with a specifier.
#[derive(Clone)]
pub enum AliasMatchKind {
    /// The key ended with `$`: the specifier must be the key.
    Exact,
    /// The specifier is the key or starts with the key and a path separator.
    Prefix,
    /// The key holds `*`: the text before and after the first `*`.
    Wildcard { prefix: String, suffix: String },
}

pub enum AliasMatchKindView {
    Exact,
    Prefix,
    Wildcard { prefix: Seq<char>, suffix: Seq<char> },
}

impl View for AliasMatchKind {
    type V = AliasMatchKindView;

    open spec fn view(&self) -> AliasMatchKindView {
        match self {
            AliasMatchKind::Exact => AliasMatchKindView::Exact,
            AliasMatchKind::Prefix => AliasMatchKindView::Prefix,
            AliasMatchKind::Wildcard { prefix, suffix } => AliasMatchKindView::Wildcard {
                prefix: prefix@,
                suffix: suffix@,
            },
        }
    }
}

/// One compiled alias entry.
pub struct CompiledAliasEntry {
    key: String,
    match_kind: AliasMatchKind,
    specifiers: Vec<AliasValue>,
    /// First byte of the key (or wildcard prefix); `None` for an empty key or prefix, which
    /// can match any specifier.
    match_first_byte: Option<u8>,
}

/// The mathematical counterpart of [`CompiledAliasEntry`].
pub struct CompiledAliasEntryView {
    pub key: Seq<char>,
    pub kind: AliasMatchKindView,
    pub specifiers: Seq<AliasValueView>,
    pub first_byte: Option<u8>,
}

impl View for CompiledAliasEntry {
    type V = CompiledAliasEntryView;

    closed spec fn view(&self) -> CompiledAliasEntryView {
        CompiledAliasEntryView {
            key: self.key@,
            kind: self.match_kind@,
            specifiers: alias_values_view(self.specifiers@),
            first_byte: self.match_first_byte,
        }
    }
}

pub open spec fn compiled_entries_view(v: Seq<CompiledAliasEntry>) -> Seq<CompiledAliasEntryView> {
    v.map_values(|e: CompiledAliasEntry| e@)
}

pub open spec fn first_byte_of(b: Seq<u8>) -> Option<u8> {
    if b.len() > 0 {
        Some(b[0])
    } else {
        None
    }
}

/// The index of the first `*` in `s`, or `s.len()`.
pub open spec fn spec_find_star(s: Seq<char>) -> int
    decreases s.len(),
{
    if s.len() == 0 {
        0
    } else if s[0] == '*' {
        0
    } else {
        1 + spec_find_star(s.skip(1))
    }
}

/// The compiled form of the alias `key` with the values `specifiers`: a trailing `$` makes an
/// exact key, a `*` a wildcard, anything else a prefix.
pub open spec fn spec_compile_entry(key: Seq<char>, specifiers: Seq<AliasValueView>) -> CompiledAliasEntryView {
    if key.len() > 0 && key.last() == '$' {
        let k = key.drop_last();
        CompiledAliasEntryView {
            key: k,
            kind: AliasMatchKindView::Exact,
            specifiers,
            first_byte: first_byte_of(encode_utf8(k)),
        }
    } else if spec_find_star(key) < key.len() {
        let i = spec_find_star(key);
        CompiledAliasEntryView {
            key,
            kind: AliasMatchKindView::Wildcard { prefix: key.take(i), suffix: key.skip(i + 1) },
            specifiers,
            first_byte: first_byte_of(encode_utf8(key.take(i))),
        }
    } else {
        CompiledAliasEntryView {
            key,
            kind: AliasMatchKindView::Prefix,
            specifiers,
            first_byte: first_byte_of(encode_utf8(key)),
        }
    }
}

/// Whether the entry `e` matches the specifier bytes `s`. A wildcard entry is only checked on
/// its first byte here; its prefix and suffix are checked when the alias value is loaded.
pub open spec fn spec_key_matches(e: CompiledAliasEntryView, s: Seq<u8>) -> bool {
    &&& (e.first_byte matches Some(b) ==> s.len() > 0 && s[0] == b)
    &&& match e.kind {
        AliasMatchKindView::Exact => encode_utf8(e.key) == s,
        AliasMatchKindView::Wildcard { .. } => true,
        AliasMatchKindView::Prefix => {
            let k = encode_utf8(e.key);
            &&& k.len() <= s.len()
            &&& s.take(k.len() as int) == k
            &&& (s.len() == k.len() || s[k.len() as int] == 0x2Fu8 || s[k.len() as int] == 0x5Cu8)
        },
    }
}

/// The byte that stands for an entry in the first-byte table: its first byte, or `0` when any
/// specifier may match it.
pub open spec fn table_byte(e: CompiledAliasEntryView) -> u8 {
    match e.first_byte {
        Some(b) => b,
        None => 0u8,
    }
}

/// Whether the 256-bit set `mask` holds `b`.
pub open spec fn mask_has(mask: Seq<u64>, b: u8) -> bool {
    mask[(b >> 6u8) as int] & (1u64 << ((b & 63u8) as u64)) != 0
}

/// The first-byte table holds the byte of each entry, and the mask holds exactly the bytes of
/// the table.
pub open spec fn table_parts(entries: Seq<CompiledAliasEntry>, first_bytes: Seq<u8>, mask: Seq<u64>) -> bool {
    &&& first_bytes.len() == entries.len()
    &&& mask.len() == 4
    &&& forall|i: int| 0 <= i < entries.len() ==> first_bytes[i] == table_byte(#[trigger] entries[i]@)
    &&& forall|b: u8| #[trigger] mask_has(mask, b) <==> exists|i: int| 0 <= i < first_bytes.len() && first_bytes[i] == b
}

/// Compiled `alias` option: the entries in declaration order, the first byte of each, and the
/// set of those bytes.
pub struct CompiledAlias {
    entries: Vec<CompiledAliasEntry>,
    first_bytes: Vec<u8>,
    byte_mask: [u64; 4],
}

impl CompiledAlias {
    #[verifier::type_invariant]
    spec fn well_formed(self) -> bool {
        table_parts(self.entries@, self.first_bytes@, self.byte_mask@)
    }

    /// The compiled entries, in declaration order.
    pub closed spec fn entries(self) -> Seq<CompiledAliasEntryView> {
        compiled_entries_view(self.entries@)
    }
}

/// Setting the bit of `c` in a 256-bit set adds `c` and nothing else.
proof fn lemma_mask_insert(mask: Seq<u64>, c: u8, b: u8)
    requires
        mask.len() == 4,
    ensures
        ({
            let w = (c >> 6u8) as int;
            let m2 = mask.update(w, mask[w] | (1u64 << ((c & 63u8) as u64)));
            mask_has(m2, b) <==> (mask_has(mask, b) || b == c)
        }),
{
    let wc = (c >> 6u8) as int;
    let wb = (b >> 6u8) as int;
    assert((c >> 6u8) < 4u8 && (b >> 6u8) < 4u8) by (bit_vector);
    let x = mask[wc];
    let y = mask[wb];
    if wb == wc {
        assert(((x | (1u64 << ((c & 63u8) as u64))) & (1u64 << ((b & 63u8) as u64)) != 0) <==> ((x & (1u64
            << ((b & 63u8) as u64)) != 0) || b == c)) by (bit_vector)
            requires
                (b >> 6u8) == (c >> 6u8),
        ;
    } else {
        assert(b != c) by (bit_vector)
            requires
                (b >> 6u8) != (c >> 6u8),
        ;
    }
}

fn clone_values(v: &Vec<AliasValue>) -> (r: Vec<AliasValue>)
    ensures
        alias_values_view(r@) == alias_values_view(v@),
{
    let mut out: Vec<AliasValue> = Vec::new();
    let mut i: usize = 0;
    while i < v.len()
        invariant
            i <= v@.len(),
            alias_values_view(out@) == alias_values_view(v@).take(i as int),
        decreases v.len() - i,
    {
        let value = match &v[i] {
            AliasValue::Path(p) => AliasValue::Path(p.clone()),
            AliasValue::Ignore => AliasValue::Ignore,
        };
        let ghost before = out@;
        out.push(value);
        proof {
            assert(alias_values_view(out@) =~= alias_values_view(before).push(v@[i as int]@));
            assert(alias_values_view(v@).take(i as int + 1) =~= alias_values_view(v@).take(i as int).push(
                v@[i as int]@,
            ));
        }
        i = i + 1;
    }
    proof {
        assert(alias_values_view(v@).take(v@.len() as int) =~= alias_values_view(v@));
    }
    out
}

/// The first byte of the UTF-8 text of `s`.
fn first_byte(s: &str) -> (r: Option<u8>)
    ensures
        r == first_byte_of(encode_utf8(s@)),
{
    let bytes = s.as_bytes();
    if bytes.len() > 0 {
        Some(bytes[0])
    } else {
        None
    }
}

fn compile_entry(key: &str, specifiers: &Vec<AliasValue>) -> (r: CompiledAliasEntry)
    ensures
        r@ == spec_compile_entry(key@, alias_values_view(specifiers@)),
{
    let chars = str_chars(key);
    let values = clone_values(specifiers);
    if chars.len() > 0 && chars[chars.len() - 1] == '$' {
        let stripped = chars_to_string(sub_chars(chars.as_slice(), 0, chars.len() - 1).as_slice());
        proof {
            assert(stripped@ =~= key@.drop_last());
        }
        let b = first_byte(stripped.as_str());
        return CompiledAliasEntry { key: stripped, match_kind: AliasMatchKind::Exact, specifiers: values, match_first_byte: b };
    }
    let mut i: usize = 0;
    proof {
        assert(chars@.skip(0) =~= chars@);
    }
    while i < chars.len() && chars[i] != '*'
        invariant
            i <= chars@.len(),
            spec_find_star(chars@) == i + spec_find_star(chars@.skip(i as int)),
        decreases chars.len() - i,
    {
        proof {
            assert(chars@.skip(i as int)[0] == chars@[i as int]);
            assert(chars@.skip(i as int).skip(1) =~= chars@.skip(i as int + 1));
        }
        i = i + 1;
    }
    if i < chars.len() {
        proof {
            assert(chars@.skip(i as int)[0] == chars@[i as int]);
        }
        let prefix = chars_to_string(sub_chars(chars.as_slice(), 0, i).as_slice());
        let suffix = chars_to_string(sub_chars(chars.as_slice(), i + 1, chars.len()).as_slice());
        proof {
            assert(prefix@ =~= key@.take(i as int));
            assert(suffix@ =~= key@.skip(i as int + 1));
        }
        let b = first_byte(prefix.as_str());
        CompiledAliasEntry {
            key: key.to_owned(),
            match_kind: AliasMatchKind::Wildcard { prefix, suffix },
            specifiers: values,
            match_first_byte: b,
        }
    } else {
        let b = first_byte(key);
        CompiledAliasEntry { key: key.to_owned(), match_kind: AliasMatchKind::Prefix, specifiers: values, match_first_byte: b }
    }
}

pub open spec fn spec_compile_alias(aliases: Seq<(String, Vec<AliasValue>)>) -> Seq<CompiledAliasEntryView> {
    aliases.map_values(|a: (String, Vec<AliasValue>)| spec_compile_entry(a.0@, alias_values_view(a.1@)))
}

/// Compile the `alias` option: each key with its values, in declaration order.
pub fn compile_alias(aliases: &Vec<(String, Vec<AliasValue>)>) -> (r: CompiledAlias)
    ensures
        r.entries() == spec_compile_alias(aliases@),
{
    let mut entries: Vec<CompiledAliasEntry> = Vec::new();
    let mut first_bytes: Vec<u8> = Vec::new();
    let mut byte_mask: [u64; 4] = [0u64; 4];
    let mut i: usize = 0;
    proof {
        assert forall|b: u8| !mask_has(byte_mask@, b) by {
            let w = (b >> 6u8) as int;
            assert((b >> 6u8) < 4u8) by (bit_vector);
            assert(byte_mask@[w] == 0u64);
            assert((0u64 & (1u64 << ((b & 63u8) as u64))) == 0u64) by (bit_vector);
        }
    }
    while i < aliases.len()
        invariant
            i <= aliases@.len(),
            byte_mask@.len() == 4,
            entries@.len() == i,
            first_bytes@.len() == i,
            compiled_entries_view(entries@) == spec_compile_alias(aliases@).take(i as int),
            forall|j: int| 0 <= j < i ==> first_bytes@[j] == table_byte(#[trigger] entries@[j]@),
            forall|b: u8| #[trigger] mask_has(byte_mask@, b) <==> exists|j: int| 0 <= j < i && first_bytes@[j] == b,
        decreases aliases.len() - i,
    {
        let entry = compile_entry(aliases[i].0.as_str(), &aliases[i].1);
        let byte = match entry.match_first_byte {
            Some(b) => b,
            None => 0u8,
        };
        let ghost old_mask = byte_mask@;
        let ghost old_bytes = first_bytes@;
        let ghost before = entries@;
        let word: usize = (byte >> 6u8) as usize;
        proof {
            assert((byte >> 6u8) < 4u8) by (bit_vector);
        }
        let shift: u64 = (byte & 63u8) as u64;
        proof {
            assert((byte & 63u8) < 64u8) by (bit_vector);
        }
        let updated = byte_mask[word] | (1u64 << shift);
        byte_mask[word] = updated;
        entries.push(entry);
        first_bytes.push(byte);
        proof {
            assert forall|b: u8| #[trigger] mask_has(byte_mask@, b) <==> exists|j: int| 0 <= j < i + 1 && first_bytes@[j] == b by {
                lemma_mask_insert(old_mask, byte, b);
                if b == byte {
                    assert(first_bytes@[i as int] == b);
                }
                if exists|j: int| 0 <= j < i + 1 && first_bytes@[j] == b {
                    let j = choose|j: int| 0 <= j < i + 1 && first_bytes@[j] == b;
                    if j < i {
                        assert(old_bytes[j] == b);
                    }
                }
                if exists|j: int| 0 <= j < i && old_bytes[j] == b {
                    let j = choose|j: int| 0 <= j < i && old_bytes[j] == b;
                    assert(first_bytes@[j] == b);
                }
            }
            assert(compiled_entries_view(entries@) =~= compiled_entries_view(before).push(entries@[i as int]@));
            assert(spec_compile_alias(aliases@).take(i as int + 1) =~= spec_compile_alias(aliases@).take(i as int).push(
                spec_compile_alias(aliases@)[i as int],
            ));
        }
        i = i + 1;
    }
    proof {
        assert(spec_compile_alias(aliases@).take(aliases@.len() as int) =~= spec_compile_alias(aliases@));
        assert(table_parts(entries@, first_bytes@, byte_mask@));
    }
    CompiledAlias { entries, first_bytes, byte_mask }
}

/// `memchr::memchr`: the index of the first occurrence of `needle` in `haystack`, if any.
#[verifier::external_body]
fn memchr(needle: u8, haystack: &[u8]) -> (r: Option<usize>)
    ensures
        match r {
            Some(i) => i < haystack@.len() && haystack@[i as int] == needle && forall|j: int|
                0 <= j < i ==> haystack@[j] != needle,
            None => forall|j: int| 0 <= j < haystack@.len() ==> haystack@[j] != needle,
        },
{
    memchr::memchr(needle, haystack)
}

/// The entries whose table byte is `0` or the first byte of the specifier, in order.
pub open spec fn spec_matching(entries: Seq<CompiledAliasEntryView>, first: Option<u8>) -> Seq<CompiledAliasEntryView>
    decreases entries.len(),
{
    if entries.len() == 0 {
        Seq::empty()
    } else {
        let e = entries.last();
        spec_matching(entries.drop_last(), first) + if table_byte(e) == 0 || Some(table_byte(e)) == first {
            seq![e]
        } else {
            Seq::empty()
        }
    }
}

pub open spec fn entry_refs_view(v: Seq<&CompiledAliasEntry>) -> Seq<CompiledAliasEntryView> {
    v.map_values(|e: &CompiledAliasEntry| e@)
}

/// A key that matches a specifier is compatible with its first byte.
proof fn lemma_match_needs_table_byte(e: CompiledAliasEntryView, s: Seq<u8>)
    requires
        spec_key_matches(e, s),
    ensures
        table_byte(e) == 0 || (s.len() > 0 && table_byte(e) == s[0]),
{
}

/// The first-byte fast-reject never drops an entry whose key matches: every matching entry is
/// among the candidates that [`CompiledAlias::matching`] returns.
pub proof fn law_fast_reject_keeps_matches(entries: Seq<CompiledAliasEntryView>, s: Seq<u8>, i: int)
    requires
        0 <= i < entries.len(),
        spec_key_matches(entries[i], s),
    ensures
        spec_matching(entries, first_byte_of(s)).contains(entries[i]),
    decreases entries.len(),
{
    lemma_match_needs_table_byte(entries[i], s);
    let prev = spec_matching(entries.drop_last(), first_byte_of(s));
    if i == entries.len() - 1 {
        let m = spec_matching(entries, first_byte_of(s));
        assert(m[m.len() - 1] == entries[i]);
    } else {
        law_fast_reject_keeps_matches(entries.drop_last(), s, i);
        let j = choose|j: int| 0 <= j < prev.len() && prev[j] == entries[i];
        let m = spec_matching(entries, first_byte_of(s));
        assert(m[j] == prev[j]);
    }
}

impl CompiledAliasEntry {
    /// The key: without the trailing `$` of an exact key.
    pub fn key(&self) -> (r: &str)
        ensures
            r@ == self@.key,
    {
        self.key.as_str()
    }

    /// How the key is compared.
    pub fn match_kind(&self) -> (r: &AliasMatchKind)
        ensures
            r@ == self@.kind,
    {
        &self.match_kind
    }

    /// The alias values, in order.
    pub fn specifiers(&self) -> (r: &Vec<AliasValue>)
        ensures
            alias_values_view(r@) == self@.specifiers,
    {
        &self.specifiers
    }

    /// Whether this entry's key matches `specifier` (raw bytes); see [`spec_key_matches`].
    pub fn key_matches(&self, specifier: &[u8]) -> (r: bool)
        ensures
            r == spec_key_matches(self@, specifier@),
    {
        if let Some(required) = self.match_first_byte {
            if specifier.len() == 0 || specifier[0] != required {
                return false;
            }
        }
        let key = self.key.as_str().as_bytes();
        match &self.match_kind {
            AliasMatchKind::Exact => bytes_eq(key, specifier),
            AliasMatchKind::Wildcard { .. } => true,
            AliasMatchKind::Prefix => {
                if key.len() > specifier.len() {
                    return false;
                }
                if !bytes_eq(key, &specifier[0..key.len()]) {
                    return false;
                }
                specifier.len() == key.len() || specifier[key.len()] == 0x2Fu8 || specifier[key.len()] == 0x5Cu8
            },
        }
    }
}

fn bytes_eq(a: &[u8], b: &[u8]) -> (r: bool)
    ensures
        r == (a@ == b@),
{
    if a.len() != b.len() {
        return false;
    }
    let mut i: usize = 0;
    while i < a.len()
        invariant
            i <= a@.len(),
            a@.len() == b@.len(),
            forall|k: int| 0 <= k < i ==> a@[k] == b@[k],
        decreases a.len() - i,
    {
        if a[i] != b[i] {
            return false;
        }
        i = i + 1;
    }
    proof {
        assert(a@ =~= b@);
    }
    true
}

impl CompiledAlias {
    fn mask_contains(&self, byte: u8) -> (r: bool)
        ensures
            r == exists|i: int| 0 <= i < self.entries().len() && table_byte(#[trigger] self.entries()[i]) == byte,
    {
        proof {
            use_type_invariant(self);
            assert(mask_has(self.byte_mask@, byte) <==> exists|i: int| 0 <= i < self.first_bytes@.len() && self.first_bytes@[i] == byte);
            if exists|i: int| 0 <= i < self.first_bytes@.len() && self.first_bytes@[i] == byte {
                let i = choose|i: int| 0 <= i < self.first_bytes@.len() && self.first_bytes@[i] == byte;
                assert(table_byte(self.entries()[i]) == byte);
            }
            if exists|i: int| 0 <= i < self.entries().len() && table_byte(#[trigger] self.entries()[i]) == byte {
                let i = choose|i: int| 0 <= i < self.entries().len() && table_byte(#[trigger] self.entries()[i]) == byte;
                assert(self.first_bytes@[i] == byte);
            }
        }
        let w: usize = (byte >> 6u8) as usize;
        let shift: u64 = (byte & 63u8) as u64;
        proof {
            assert((byte >> 6u8) < 4u8) by (bit_vector);
            assert((byte & 63u8) < 64u8) by (bit_vector);
        }
        self.byte_mask[w] & (1u64 << shift) != 0
    }

    /// Whether any entry's first byte is compatible with `specifier`: an entry that may match
    /// anything exists, or an entry starts with the specifier's first byte.
    pub fn may_match(&self, specifier: &[u8]) -> (r: bool)
        ensures
            r == ((exists|i: int| 0 <= i < self.entries().len() && table_byte(#[trigger] self.entries()[i]) == 0)
                || (specifier@.len() > 0 && exists|i: int|
                0 <= i < self.entries().len() && table_byte(#[trigger] self.entries()[i]) == specifier@[0])),
    {
        self.mask_contains(0) || (specifier.len() > 0 && self.mask_contains(specifier[0]))
    }

    /// Entries whose first byte is compatible with `specifier`, in declaration order. This is
    /// only the fast-reject; callers still confirm with [`CompiledAliasEntry::key_matches`].
    pub fn matching<'a>(&'a self, specifier: &[u8]) -> (r: Vec<&'a CompiledAliasEntry>)
        ensures
            entry_refs_view(r@) == spec_matching(self.entries(), first_byte_of(specifier@)),
    {
        proof {
            use_type_invariant(self);
        }
        let first = if specifier.len() > 0 {
            Some(specifier[0])
        } else {
            None
        };
        let ghost es = self.entries();
        let mut out: Vec<&'a CompiledAliasEntry> = Vec::new();
        let mut i: usize = 0;
        proof {
            assert(es.take(0) =~= Seq::<CompiledAliasEntryView>::empty());
            assert(entry_refs_view(out@) =~= Seq::<CompiledAliasEntryView>::empty());
        }
        while i < self.entries.len()
            invariant
                i <= es.len(),
                es == self.entries(),
                es.len() == self.entries@.len(),
                table_parts(self.entries@, self.first_bytes@, self.byte_mask@),
                first == first_byte_of(specifier@),
                entry_refs_view(out@) == spec_matching(es.take(i as int), first),
            decreases self.entries.len() - i,
        {
            let byte = self.first_bytes[i];
            proof {
                assert(es.take(i as int + 1).drop_last() =~= es.take(i as int));
                assert(es.take(i as int + 1).last() == es[i as int]);
                assert(byte == table_byte(es[i as int]));
            }
            let ghost before = out@;
            let keep = match first {
                Some(f) => byte == 0 || byte == f,
                None => byte == 0,
            };
            if keep {
                out.push(&self.entries[i]);
                proof {
                    assert(entry_refs_view(out@) =~= entry_refs_view(before).push(es[i as int]));
                }
            } else {
                proof {
                    assert(entry_refs_view(out@) =~= entry_refs_view(before) + Seq::<CompiledAliasEntryView>::empty());
                }
            }
            i = i + 1;
        }
        proof {
            assert(es.take(es.len() as int) =~= es);
        }
        out
    }

    /// Whether any entry's key matches `specifier` (raw bytes), gated by the first-byte mask.
    pub fn any_key_matches(&self, specifier: &[u8]) -> (r: bool)
        ensures
            r == exists|i: int| 0 <= i < self.entries().len() && spec_key_matches(#[trigger] self.entries()[i], specifier@),
    {
        proof {
            use_type_invariant(self);
        }
        let ghost es = self.entries();
        if !self.may_match(specifier) {
            proof {
                assert forall|i: int| 0 <= i < es.len() implies !spec_key_matches(#[trigger] es[i], specifier@) by {
                    if spec_key_matches(es[i], specifier@) {
                        lemma_match_needs_table_byte(es[i], specifier@);
                    }
                }
            }
            return false;
        }
        if self.mask_contains(0) {
            let mut i: usize = 0;
            while i < self.entries.len()
                invariant
                    i <= es.len(),
                    es == self.entries(),
                    es.len() == self.entries@.len(),
                    forall|k: int| 0 <= k < i ==> !spec_key_matches(#[trigger] es[k], specifier@),
                decreases self.entries.len() - i,
            {
                if self.entries[i].key_matches(specifier) {
                    proof {
                        assert(es[i as int] == self.entries@[i as int]@);
                    }
                    return true;
                }
                i = i + 1;
            }
            return false;
        }
        let first = specifier[0];
        let mut pos: usize = 0;
        while pos < self.first_bytes.len()
            invariant
                pos <= self.first_bytes@.len(),
                es == self.entries(),
                specifier@.len() > 0,
                first == specifier@[0],
                table_parts(self.entries@, self.first_bytes@, self.byte_mask@),
                !exists|i: int| 0 <= i < es.len() && table_byte(#[trigger] es[i]) == 0,
                forall|k: int| 0 <= k < pos ==> !spec_key_matches(#[trigger] es[k], specifier@),
            decreases self.first_bytes.len() - pos,
        {
            let rest = &self.first_bytes.as_slice()[pos..self.first_bytes.len()];
            match memchr(first, rest) {
                Some(k) => {
                    let index = pos + k;
                    proof {
                        assert(rest@[k as int] == self.first_bytes@[index as int]);
                        assert forall|j: int| pos <= j < index implies !spec_key_matches(#[trigger] es[j], specifier@) by {
                            assert(rest@[j - pos] == self.first_bytes@[j]);
                            if spec_key_matches(es[j], specifier@) {
                                lemma_match_needs_table_byte(es[j], specifier@);
                                assert(table_byte(es[j]) == self.first_bytes@[j]);
                            }
                        }
                    }
                    if self.entries[index].key_matches(specifier) {
                        proof {
                            assert(es[index as int] == self.entries@[index as int]@);
                        }
                        return true;
                    }
                    pos = index + 1;
                },
                None => {
                    proof {
                        assert forall|j: int| pos <= j < es.len() implies !spec_key_matches(#[trigger] es[j], specifier@) by {
                            assert(rest@[j - pos] == self.first_bytes@[j]);
                            if spec_key_matches(es[j], specifier@) {
                                lemma_match_needs_table_byte(es[j], specifier@);
                                assert(table_byte(es[j]) == self.first_bytes@[j]);
                            }
                        }
                    }
                    return false;
                },
            }
        }
        false
    }
}

/// `s` without the prefix `p`, when it starts with it.
pub open spec fn spec_strip_prefix(s: Seq<char>, p: Seq<char>) -> Option<Seq<char>> {
    if p.len() <= s.len() && s.take(p.len() as int) == p {
        Some(s.skip(p.len() as int))
    } else {
        None
    }
}

/// `s` without the suffix `p`, when it ends with it.
pub open spec fn spec_strip_suffix(s: Seq<char>, p: Seq<char>) -> Option<Seq<char>> {
    if p.len() <= s.len() && s.skip(s.len() - p.len()) == p {
        Some(s.take(s.len() - p.len()))
    } else {
        None
    }
}

/// `s` without its leading `/` and `\\`.
pub open spec fn spec_trim_slashes(s: Seq<char>) -> Seq<char>
    decreases s.len(),
{
    if s.len() > 0 && (s[0] == '/' || s[0] == '\\') {
        spec_trim_slashes(s.skip(1))
    } else {
        s
    }
}

/// `v` with its first `*` replaced by `k`.
pub open spec fn spec_replace_star(v: Seq<char>, k: Seq<char>) -> Seq<char> {
    let i = spec_find_star(v);
    if i < v.len() {
        v.take(i) + k + v.skip(i + 1)
    } else {
        v
    }
}

/// The specifier that the alias value `alias_value` of a matched key gives `request`, or
/// `None` when the value does not apply. `alias_path_is_file` says whether the normalized alias
/// value is a file; it is consulted only when something would be appended to it.
pub open spec fn spec_alias_value_specifier(
    request: Seq<char>,
    alias_key: Seq<char>,
    kind: AliasMatchKindView,
    alias_value: Seq<char>,
    alias_path_is_file: bool,
) -> Option<Seq<char>> {
    if request == alias_value || (spec_strip_prefix(request, alias_value) matches Some(rest) && rest.len() > 0
        && rest[0] == '/') {
        None
    } else {
        match kind {
            AliasMatchKindView::Wildcard { prefix, suffix } => match spec_strip_prefix(request, prefix) {
                Some(after) => match spec_strip_suffix(after, suffix) {
                    Some(k) => Some(spec_replace_star(alias_value, k)),
                    None => None,
                },
                None => None,
            },
            _ => {
                let tail = request.skip(alias_key.len() as int);
                if tail.len() == 0 {
                    Some(alias_value)
                } else if alias_path_is_file {
                    None
                } else {
                    let t = spec_trim_slashes(tail);
                    if t.len() == 0 {
                        Some(alias_value)
                    } else {
                        Some(spec_join(spec_normalize(alias_value), t))
                    }
                }
            },
        }
    }
}

fn strip_prefix_chars(s: &[char], p: &[char]) -> (r: Option<Vec<char>>)
    ensures
        match spec_strip_prefix(s@, p@) {
            Some(t) => r matches Some(v) && v@ == t,
            None => r is None,
        },
{
    if crate::text::starts_with_chars(s, p) {
        let t = sub_chars(s, p.len(), s.len());
        proof {
            assert(t@ =~= s@.skip(p@.len() as int));
        }
        Some(t)
    } else {
        None
    }
}

fn strip_suffix_chars(s: &[char], p: &[char]) -> (r: Option<Vec<char>>)
    ensures
        match spec_strip_suffix(s@, p@) {
            Some(t) => r matches Some(v) && v@ == t,
            None => r is None,
        },
{
    if p.len() > s.len() {
        return None;
    }
    let start = s.len() - p.len();
    let mut i: usize = 0;
    while i < p.len()
        invariant
            start + p@.len() == s@.len(),
            s@.len() == s.len(),
            p@.len() == p.len(),
            i <= p@.len(),
            forall|k: int| 0 <= k < i ==> s@[start + k] == p@[k],
        decreases p.len() - i,
    {
        if s[start + i] != p[i] {
            proof {
                assert(s@.skip(start as int)[i as int] != p@[i as int]);
            }
            return None;
        }
        i = i + 1;
    }
    proof {
        assert(s@.skip(start as int) =~= p@);
    }
    let t = sub_chars(s, 0, start);
    proof {
        assert(t@ =~= s@.take(start as int));
    }
    Some(t)
}

fn replace_star(v: &[char], k: &[char]) -> (r: Vec<char>)
    ensures
        r@ == spec_replace_star(v@, k@),
{
    let mut i: usize = 0;
    proof {
        assert(v@.skip(0) =~= v@);
    }
    while i < v.len() && v[i] != '*'
        invariant
            i <= v@.len(),
            spec_find_star(v@) == i + spec_find_star(v@.skip(i as int)),
        decreases v.len() - i,
    {
        proof {
            assert(v@.skip(i as int)[0] == v@[i as int]);
            assert(v@.skip(i as int).skip(1) =~= v@.skip(i as int + 1));
        }
        i = i + 1;
    }
    if i == v.len() {
        return sub_chars(v, 0, v.len());
    }
    proof {
        assert(v@.skip(i as int)[0] == v@[i as int]);
    }
    let mut out = sub_chars(v, 0, i);
    let mut j: usize = 0;
    while j < k.len()
        invariant
            j <= k@.len(),
            out@ == v@.take(i as int) + k@.take(j as int),
        decreases k.len() - j,
    {
        out.push(k[j]);
        proof {
            assert(k@.take(j as int + 1) =~= k@.take(j as int).push(k@[j as int]));
        }
        j = j + 1;
    }
    let mut m: usize = i + 1;
    proof {
        assert(k@.take(k@.len() as int) =~= k@);
        assert(v@.skip(i as int + 1).take(0) =~= Seq::<char>::empty());
        assert(out@ =~= v@.take(i as int) + k@ + v@.skip(i as int + 1).take(0));
    }
    while m < v.len()
        invariant
            i + 1 <= m <= v@.len(),
            out@ == v@.take(i as int) + k@ + v@.skip(i as int + 1).take(m - i - 1),
        decreases v.len() - m,
    {
        out.push(v[m]);
        proof {
            assert(v@.skip(i as int + 1).take(m - i) =~= v@.skip(i as int + 1).take(m - i - 1).push(v@[m as int]));
        }
        m = m + 1;
    }
    proof {
        assert(v@.skip(i as int + 1).take(v@.len() - i - 1) =~= v@.skip(i as int + 1));
    }
    out
}

fn trim_slashes(s: &[char]) -> (r: Vec<char>)
    ensures
        r@ == spec_trim_slashes(s@),
{
    let mut i: usize = 0;
    proof {
        assert(s@.skip(0) =~= s@);
    }
    while i < s.len() && (s[i] == '/' || s[i] == '\\')
        invariant
            i <= s@.len(),
            spec_trim_slashes(s@) == spec_trim_slashes(s@.skip(i as int)),
        decreases s.len() - i,
    {
        proof {
            assert(s@.skip(i as int)[0] == s@[i as int]);
            assert(s@.skip(i as int).skip(1) =~= s@.skip(i as int + 1));
        }
        i = i + 1;
    }
    let r = sub_chars(s, i, s.len());
    proof {
        assert(r@ =~= s@.skip(i as int));
    }
    r
}

/// What a matched alias value rewrites `request` to (see [`spec_alias_value_specifier`]).
/// For an exact or prefix key, `request` starts with `alias_key`.
pub fn alias_value_specifier(
    request: &str,
    alias_key: &str,
    kind: &AliasMatchKind,
    alias_value: &str,
    alias_path_is_file: bool,
) -> (r: Option<String>)
    requires
        !(kind@ is Wildcard) ==> alias_key@.len() <= request@.len() && request@.take(alias_key@.len() as int) == alias_key@,
    ensures
        match spec_alias_value_specifier(request@, alias_key@, kind@, alias_value@, alias_path_is_file) {
            Some(t) => r matches Some(s) && s@ == t,
            None => r is None,
        },
{
    let req = str_chars(request);
    let value = str_chars(alias_value);
    if crate::json::str_eq(request, alias_value) {
        return None;
    }
    if let Some(rest) = strip_prefix_chars(req.as_slice(), value.as_slice()) {
        if rest.len() > 0 && rest[0] == '/' {
            return None;
        }
    }
    match kind {
        AliasMatchKind::Wildcard { prefix, suffix } => {
            let p = str_chars(prefix.as_str());
            let sfx = str_chars(suffix.as_str());
            let after = match strip_prefix_chars(req.as_slice(), p.as_slice()) {
                Some(a) => a,
                None => return None,
            };
            let k = match strip_suffix_chars(after.as_slice(), sfx.as_slice()) {
                Some(k) => k,
                None => return None,
            };
            let replaced = replace_star(value.as_slice(), k.as_slice());
            Some(chars_to_string(replaced.as_slice()))
        },
        _ => {
            let key_len = str_chars(alias_key).len();
            let tail = sub_chars(req.as_slice(), key_len, req.len());
            proof {
                assert(tail@ =~= request@.skip(alias_key@.len() as int));
            }
            if tail.len() == 0 {
                return Some(alias_value.to_owned());
            }
            if alias_path_is_file {
                return None;
            }
            let t = trim_slashes(tail.as_slice());
            if t.len() == 0 {
                return Some(alias_value.to_owned());
            }
            let alias_path = alias_value.normalize();
            let t_text = chars_to_string(t.as_slice());
            Some(alias_path.as_str().normalize_with(t_text.as_str()))
        },
    }
}

// ---------------------------------------------------------------------------------------------
// Walking the aliases of a request
// ---------------------------------------------------------------------------------------------

/// What the resolver must do next for an alias walk.
#[derive(Debug)]
pub enum AliasAction {
    /// Report whether the normalized alias value at this path is a file.
    CheckFile(String),
    /// Resolve this specifier in the request's directory (with `fully_specified` turned off)
    /// and report the outcome.
    Resolve(String),
    /// The walk is over with this outcome: the resolved path, no alias applied, or an error.
    Done(Result<Option<String>, ResolveError>),
}

/// What the resolver reports back to an alias walk.
pub enum AliasEvent {
    /// Whether the path of the last [`AliasAction::CheckFile`] is a file.
    File(bool),
    /// The outcome of the last [`AliasAction::Resolve`].
    Resolved(Result<String, ResolveError>),
}

/// The mathematical counterpart of [`AliasAction`].
pub enum AliasStep {
    CheckFile(Seq<char>),
    Resolve(Seq<char>),
    /// Done: resolved to this path.
    Found(Seq<char>),
    /// Done: no alias applies.
    NoAlias,
    /// Done: the request is ignored; the path of the alias key.
    Ignored(Seq<char>),
    /// Done: an alias matched but none of its values resolved: the request and the key.
    MatchedAliasNotFound(Seq<char>, Seq<char>),
    /// Done: resolving an alias value failed with this error.
    Failed(ResolveError),
}

/// The step that ending with the error `e` stands for.
pub open spec fn error_step(e: ResolveError) -> AliasStep {
    match e {
        ResolveError::Ignored(p) => AliasStep::Ignored(p@),
        ResolveError::MatchedAliasNotFound(a, b) => AliasStep::MatchedAliasNotFound(a@, b@),
        other => AliasStep::Failed(other),
    }
}

pub open spec fn action_view(a: AliasAction) -> AliasStep {
    match a {
        AliasAction::CheckFile(p) => AliasStep::CheckFile(p@),
        AliasAction::Resolve(s) => AliasStep::Resolve(s@),
        AliasAction::Done(Ok(Some(p))) => AliasStep::Found(p@),
        AliasAction::Done(Ok(None)) => AliasStep::NoAlias,
        AliasAction::Done(Err(e)) => error_step(e),
    }
}

/// A position of the walk: the entry and value looked at, whether a value of this entry has
/// already been tried (so that failing to resolve the rest stops the walk), and the next step.
pub struct WalkPoint {
    pub entry: int,
    pub value: int,
    pub should_stop: bool,
    pub step: AliasStep,
}

pub open spec fn values_left(es: Seq<CompiledAliasEntryView>, e: int, v: int) -> int {
    if 0 <= e < es.len() && v < es[e].specifiers.len() {
        es[e].specifiers.len() - v
    } else {
        0
    }
}

/// The request has already been rewritten to `alias_value` (it is the value, or the value
/// followed by a path), so the value does not apply.
pub open spec fn already_aliased(request: Seq<char>, alias_value: Seq<char>) -> bool {
    request == alias_value || (spec_strip_prefix(request, alias_value) matches Some(rest) && rest.len() > 0
        && rest[0] == '/')
}

/// From entry `e`, value `v` on: the next point at which the walk needs the resolver or ends.
/// Entries whose key does not match are passed over; an `Ignore` value ends the walk; a value
/// that does not apply is passed over; after the values of an entry of which one was tried, the
/// walk ends with "matched alias not found".
pub open spec fn spec_advance(
    es: Seq<CompiledAliasEntryView>,
    request: Seq<char>,
    dir: Seq<char>,
    e: int,
    v: int,
    should_stop: bool,
) -> WalkPoint
    decreases es.len() - e, values_left(es, e, v),
{
    if e < 0 || v < 0 || e >= es.len() {
        WalkPoint { entry: e, value: v, should_stop, step: AliasStep::NoAlias }
    } else if !spec_key_matches(es[e], encode_utf8(request)) {
        spec_advance(es, request, dir, e + 1, 0, false)
    } else if v >= es[e].specifiers.len() {
        if should_stop {
            WalkPoint {
                entry: e,
                value: v,
                should_stop,
                step: AliasStep::MatchedAliasNotFound(request, es[e].key),
            }
        } else {
            spec_advance(es, request, dir, e + 1, 0, false)
        }
    } else {
        match es[e].specifiers[v] {
            AliasValueView::Ignore => WalkPoint {
                entry: e,
                value: v,
                should_stop,
                step: AliasStep::Ignored(spec_join(dir, es[e].key)),
            },
            AliasValueView::Path(av) => if already_aliased(request, av) {
                spec_advance(es, request, dir, e, v + 1, should_stop)
            } else {
                match es[e].kind {
                    AliasMatchKindView::Wildcard { .. } => match spec_alias_value_specifier(request, es[e].key, es[e].kind, av, false) {
                        Some(n) => WalkPoint { entry: e, value: v, should_stop: true, step: AliasStep::Resolve(n) },
                        None => spec_advance(es, request, dir, e, v + 1, should_stop),
                    },
                    _ => if request.skip(es[e].key.len() as int).len() == 0 {
                        WalkPoint { entry: e, value: v, should_stop: true, step: AliasStep::Resolve(av) }
                    } else {
                        WalkPoint { entry: e, value: v, should_stop, step: AliasStep::CheckFile(spec_normalize(av)) }
                    },
                }
            },
        }
    }
}

/// The point after the resolver reported whether the alias path of a `CheckFile` step is a
/// file: a file cannot have anything appended, so the value is passed over; otherwise the
/// rewritten request is resolved.
pub open spec fn spec_after_file(es: Seq<CompiledAliasEntryView>, request: Seq<char>, dir: Seq<char>, p: WalkPoint, is_file: bool) -> WalkPoint {
    if is_file {
        spec_advance(es, request, dir, p.entry, p.value + 1, p.should_stop)
    } else {
        let e = es[p.entry];
        WalkPoint {
            entry: p.entry,
            value: p.value,
            should_stop: true,
            step: AliasStep::Resolve(
                spec_alias_value_specifier(request, e.key, e.kind, e.specifiers[p.value]->Path_0, false)->Some_0,
            ),
        }
    }
}

/// The point after the resolver reported the outcome of a `Resolve` step: a path ends the
/// walk, "not found" moves on to the next value, any other error ends the walk with it.
pub open spec fn spec_after_resolve(
    es: Seq<CompiledAliasEntryView>,
    request: Seq<char>,
    dir: Seq<char>,
    p: WalkPoint,
    outcome: Result<Seq<char>, ResolveError>,
) -> WalkPoint {
    match outcome {
        Ok(path) => WalkPoint { step: AliasStep::Found(path), ..p },
        Err(ResolveError::NotFound(_)) => spec_advance(es, request, dir, p.entry, p.value + 1, p.should_stop),
        Err(ResolveError::MatchedAliasNotFound(_, _)) => spec_advance(es, request, dir, p.entry, p.value + 1, p.should_stop),
        Err(other) => WalkPoint { step: error_step(other), ..p },
    }
}

pub open spec fn event_outcome(r: Result<String, ResolveError>) -> Result<Seq<char>, ResolveError> {
    match r {
        Ok(p) => Ok(p@),
        Err(e) => Err(e),
    }
}

/// What the walk waits for.
#[derive(PartialEq, Eq, Structural)]
pub enum Pending {
    File,
    Resolution,
    Nothing,
}

/// The aliases of one request, walked in declaration order. The resolver performs each action
/// and reports back with [`AliasWalk::on_event`] until the walk is done.
pub struct AliasWalk {
    request: String,
    dir: String,
    entry: usize,
    value: usize,
    should_stop: bool,
    pending: Pending,
    point: Ghost<WalkPoint>,
}

impl AliasWalk {
    /// The request that the aliases are applied to.
    pub closed spec fn request(self) -> Seq<char> {
        self.request@
    }

    /// The directory of the request.
    pub closed spec fn dir(self) -> Seq<char> {
        self.dir@
    }

    /// Where the walk stands.
    pub closed spec fn point(self) -> WalkPoint {
        self.point@
    }

    /// The walk stands at a point that the aliases `es` lead to, and waits for what that
    /// point's step asks.
    pub closed spec fn walks(self, es: Seq<CompiledAliasEntryView>) -> bool {
        let p = self.point@;
        &&& (self.pending == Pending::File <==> p.step is CheckFile)
        &&& (self.pending == Pending::Resolution <==> p.step is Resolve)
        &&& (self.pending != Pending::Nothing ==> {
            &&& p.entry == self.entry
            &&& p.value == self.value
            &&& p.should_stop == self.should_stop
            &&& 0 <= p.entry < es.len()
            &&& 0 <= p.value < es[p.entry].specifiers.len()
            &&& es[p.entry].specifiers[p.value] is Path
            &&& spec_key_matches(es[p.entry], encode_utf8(self.request@))
        })
        &&& (p.step is CheckFile ==> {
            &&& !(es[p.entry].kind is Wildcard)
            &&& es[p.entry].key.len() <= self.request@.len()
            &&& self.request@.take(es[p.entry].key.len() as int) == es[p.entry].key
            &&& self.request@.skip(es[p.entry].key.len() as int).len() > 0
            &&& !already_aliased(self.request@, es[p.entry].specifiers[p.value]->Path_0)
        })
    }

    /// Whether the walk waits for a `File` event.
    pub closed spec fn expects_file(self) -> bool {
        self.pending == Pending::File
    }

    /// Whether the walk waits for a `Resolved` event.
    pub closed spec fn expects_resolution(self) -> bool {
        self.pending == Pending::Resolution
    }
}

/// When the UTF-8 bytes of `a` start the UTF-8 bytes of `b`, the characters of `a` start the
/// characters of `b`.
pub proof fn lemma_utf8_prefix(a: Seq<char>, b: Seq<char>)
    requires
        encode_utf8(a).len() <= encode_utf8(b).len(),
        encode_utf8(b).take(encode_utf8(a).len() as int) == encode_utf8(a),
    ensures
        a.len() <= b.len(),
        b.take(a.len() as int) == a,
    decreases a.len(),
{
    if a.len() == 0 {
        assert(b.take(0) =~= a);
    } else {
        let ea = encode_utf8(a);
        let eb = encode_utf8(b);
        assert(ea.len() > 0);
        if b.len() == 0 {
            assert(eb.len() == 0);
        }
        vstd::utf8::encode_utf8_first_scalar(a);
        vstd::utf8::encode_utf8_first_scalar(b);
        assert forall|k: int| 0 <= k < ea.len() implies ea[k] == eb[k] by {
            assert(eb.take(ea.len() as int)[k] == eb[k]);
        }
        assert(vstd::utf8::decode_first_codepoint(ea) == vstd::utf8::decode_first_codepoint(eb));
        vstd::utf8::char_u32_cast(a[0], a[0] as u32);
        vstd::utf8::char_u32_cast(b[0], b[0] as u32);
        assert(a[0] == b[0]);
        let w = vstd::utf8::encode_scalar(a[0] as u32);
        assert(ea == w + encode_utf8(a.drop_first()));
        assert(eb == w + encode_utf8(b.drop_first()));
        let ra = encode_utf8(a.drop_first());
        let rb = encode_utf8(b.drop_first());
        assert(rb.take(ra.len() as int) =~= ra) by {
            assert forall|k: int| 0 <= k < ra.len() implies rb[k] == ra[k] by {
                assert(ea[w.len() + k] == ra[k]);
                assert(eb[w.len() + k] == rb[k]);
            }
        }
        lemma_utf8_prefix(a.drop_first(), b.drop_first());
        assert(b.take(a.len() as int) =~= a) by {
            assert forall|k: int| 0 <= k < a.len() implies b[k] == a[k] by {
                if k > 0 {
                    assert(b.drop_first().take(a.len() - 1)[k - 1] == a.drop_first()[k - 1]);
                }
            }
        }
    }
}

/// With no key matching the request, the walk finds no alias.
proof fn lemma_advance_without_matches(
    es: Seq<CompiledAliasEntryView>,
    request: Seq<char>,
    dir: Seq<char>,
    e: int,
    v: int,
    should_stop: bool,
)
    requires
        forall|i: int| 0 <= i < es.len() ==> !spec_key_matches(#[trigger] es[i], encode_utf8(request)),
    ensures
        spec_advance(es, request, dir, e, v, should_stop).step == AliasStep::NoAlias,
    decreases es.len() - e, values_left(es, e, v),
{
    if 0 <= e < es.len() && v >= 0 {
        lemma_advance_without_matches(es, request, dir, e + 1, 0, false);
    }
}

/// Whether `request` has already been rewritten to `alias_value`.
fn is_already_aliased(request: &str, alias_value: &str) -> (r: bool)
    ensures
        r == already_aliased(request@, alias_value@),
{
    if crate::json::str_eq(request, alias_value) {
        return true;
    }
    let req = str_chars(request);
    let value = str_chars(alias_value);
    match strip_prefix_chars(req.as_slice(), value.as_slice()) {
        Some(rest) => rest.len() > 0 && rest[0] == '/',
        None => false,
    }
}

impl AliasWalk {
    /// Walk on from `entry`, `value` until the resolver is needed or the walk ends (see
    /// [`spec_advance`]).
    #[verifier::rlimit(60)]
    fn advance(&mut self, aliases: &CompiledAlias, ctx: &mut ResolveContext) -> (r: AliasAction)
        requires
            old(self).entry <= aliases.entries().len(),
        ensures
            final(self).request@ == old(self).request@,
            final(self).dir@ == old(self).dir@,
            final(self).point() == spec_advance(
                aliases.entries(),
                old(self).request@,
                old(self).dir@,
                old(self).entry as int,
                old(self).value as int,
                old(self).should_stop,
            ),
            final(self).walks(aliases.entries()),
            action_view(r) == final(self).point().step,
            r is Resolve ==> *final(ctx) == (ResolveContext { fully_specified: false, ..*old(ctx) }),
            !(r is Resolve) ==> *final(ctx) == *old(ctx),
    {
        proof {
            use_type_invariant(aliases);
        }
        let ghost es = aliases.entries();
        let ghost target = spec_advance(es, self.request@, self.dir@, self.entry as int, self.value as int, self.should_stop);
        let request_bytes = self.request.as_str().as_bytes();
        loop
            invariant
                es == aliases.entries(),
                es.len() == aliases.entries@.len(),
                self.entry <= es.len(),
                request_bytes@ == encode_utf8(self.request@),
                self.request@ == old(self).request@,
                self.dir@ == old(self).dir@,
                target == spec_advance(es, self.request@, self.dir@, self.entry as int, self.value as int, self.should_stop),
                target == spec_advance(
                    es,
                    old(self).request@,
                    old(self).dir@,
                    old(self).entry as int,
                    old(self).value as int,
                    old(self).should_stop,
                ),
                *ctx == *old(ctx),
            decreases es.len() - self.entry, values_left(es, self.entry as int, self.value as int),
        {
            if self.entry >= aliases.entries.len() {
                self.pending = Pending::Nothing;
                self.point = Ghost(target);
                return AliasAction::Done(Ok(None));
            }
            let entry = &aliases.entries[self.entry];
            proof {
                assert(es[self.entry as int] == entry@);
            }
            if !entry.key_matches(request_bytes) {
                self.entry = self.entry + 1;
                self.value = 0;
                self.should_stop = false;
                continue;
            }
            if self.value >= entry.specifiers.len() {
                if self.should_stop {
                    self.pending = Pending::Nothing;
                    self.point = Ghost(target);
                    return AliasAction::Done(
                        Err(ResolveError::MatchedAliasNotFound(self.request.clone(), entry.key.clone())),
                    );
                }
                self.entry = self.entry + 1;
                self.value = 0;
                self.should_stop = false;
                continue;
            }
            proof {
                assert(es[self.entry as int].specifiers[self.value as int] == entry.specifiers@[self.value as int]@);
            }
            match &entry.specifiers[self.value] {
                AliasValue::Ignore => {
                    self.pending = Pending::Nothing;
                    self.point = Ghost(target);
                    let ignored = self.dir.as_str().normalize_with(entry.key.as_str());
                    return AliasAction::Done(Err(ResolveError::Ignored(ignored)));
                },
                AliasValue::Path(alias_value) => {
                    if is_already_aliased(self.request.as_str(), alias_value.as_str()) {
                        self.value = self.value + 1;
                        continue;
                    }
                    match &entry.match_kind {
                        AliasMatchKind::Wildcard { .. } => {
                            match alias_value_specifier(
                                self.request.as_str(),
                                entry.key.as_str(),
                                &entry.match_kind,
                                alias_value.as_str(),
                                false,
                            ) {
                                Some(n) => {
                                    self.should_stop = true;
                                    self.pending = Pending::Resolution;
                                    self.point = Ghost(target);
                                    ctx.with_fully_specified(false);
                                    return AliasAction::Resolve(n);
                                },
                                None => {
                                    self.value = self.value + 1;
                                    continue;
                                },
                            }
                        },
                        _ => {
                            proof {
                                let kb = encode_utf8(entry.key@);
                                let rb = encode_utf8(self.request@);
                                if entry.match_kind@ is Exact {
                                    assert(kb == rb);
                                    assert(rb.take(kb.len() as int) =~= kb);
                                    assert(kb.take(rb.len() as int) =~= rb);
                                    lemma_utf8_prefix(self.request@, entry.key@);
                                } else {
                                    assert(rb.take(kb.len() as int) == kb);
                                }
                                lemma_utf8_prefix(entry.key@, self.request@);
                            }
                            let key_len = str_chars(entry.key.as_str()).len();
                            let request_len = str_chars(self.request.as_str()).len();
                            if request_len == key_len {
                                proof {
                                    assert(self.request@.skip(entry.key@.len() as int).len() == 0);
                                }
                                self.should_stop = true;
                                self.pending = Pending::Resolution;
                                self.point = Ghost(target);
                                ctx.with_fully_specified(false);
                                return AliasAction::Resolve(alias_value.clone());
                            }
                            self.pending = Pending::File;
                            self.point = Ghost(target);
                            return AliasAction::CheckFile(alias_value.as_str().normalize());
                        },
                    }
                },
            }
        }
    }

    /// Start walking the aliases of `request`, made in the directory `dir`.
    pub fn start(aliases: &CompiledAlias, request: &str, dir: &str, ctx: &mut ResolveContext) -> (r: (AliasWalk, AliasAction))
        ensures
            r.0.request() == request@,
            r.0.dir() == dir@,
            r.0.walks(aliases.entries()),
            r.0.point() == spec_advance(aliases.entries(), request@, dir@, 0, 0, false),
            action_view(r.1) == r.0.point().step,
            r.1 is Resolve ==> *final(ctx) == (ResolveContext { fully_specified: false, ..*old(ctx) }),
            !(r.1 is Resolve) ==> *final(ctx) == *old(ctx),
    {
        let mut walk = AliasWalk {
            request: request.to_owned(),
            dir: dir.to_owned(),
            entry: 0,
            value: 0,
            should_stop: false,
            pending: Pending::Nothing,
            point: Ghost(WalkPoint { entry: 0, value: 0, should_stop: false, step: AliasStep::NoAlias }),
        };
        if !aliases.may_match(request.as_bytes()) {
            proof {
                use_type_invariant(aliases);
                let es = aliases.entries();
                assert forall|i: int| 0 <= i < es.len() implies !spec_key_matches(#[trigger] es[i], encode_utf8(request@)) by {
                    if spec_key_matches(es[i], encode_utf8(request@)) {
                        lemma_match_needs_table_byte(es[i], encode_utf8(request@));
                    }
                }
                lemma_advance_without_matches(es, request@, dir@, 0, 0, false);
            }
            walk.point = Ghost(spec_advance(aliases.entries(), request@, dir@, 0, 0, false));
            return (walk, AliasAction::Done(Ok(None)));
        }
        let action = walk.advance(aliases, ctx);
        (walk, action)
    }

    /// Take the resolver's report on the last action and walk on.
    pub fn on_event(&mut self, aliases: &CompiledAlias, event: AliasEvent, ctx: &mut ResolveContext) -> (r: AliasAction)
        requires
            old(self).walks(aliases.entries()),
            event is File ==> old(self).expects_file(),
            event is Resolved ==> old(self).expects_resolution(),
        ensures
            final(self).request() == old(self).request(),
            final(self).dir() == old(self).dir(),
            final(self).walks(aliases.entries()),
            final(self).point() == match event {
                AliasEvent::File(is_file) => spec_after_file(
                    aliases.entries(),
                    old(self).request(),
                    old(self).dir(),
                    old(self).point(),
                    is_file,
                ),
                AliasEvent::Resolved(outcome) => spec_after_resolve(
                    aliases.entries(),
                    old(self).request(),
                    old(self).dir(),
                    old(self).point(),
                    event_outcome(outcome),
                ),
            },
            action_view(r) == final(self).point().step,
            r is Resolve ==> *final(ctx) == (ResolveContext { fully_specified: false, ..*old(ctx) }),
            !(r is Resolve) ==> *final(ctx) == *old(ctx),
    {
        match event {
            AliasEvent::File(is_file) => self.on_file(aliases, is_file, ctx),
            AliasEvent::Resolved(outcome) => self.on_resolved(aliases, outcome, ctx),
        }
    }

    fn on_file(&mut self, aliases: &CompiledAlias, is_file: bool, ctx: &mut ResolveContext) -> (r: AliasAction)
        requires
            old(self).walks(aliases.entries()),
            old(self).expects_file(),
        ensures
            final(self).request() == old(self).request(),
            final(self).dir() == old(self).dir(),
            final(self).walks(aliases.entries()),
            final(self).point() == spec_after_file(
                aliases.entries(),
                old(self).request(),
                old(self).dir(),
                old(self).point(),
                is_file,
            ),
            action_view(r) == final(self).point().step,
            r is Resolve ==> *final(ctx) == (ResolveContext { fully_specified: false, ..*old(ctx) }),
            !(r is Resolve) ==> *final(ctx) == *old(ctx),
    {
        proof {
            use_type_invariant(aliases);
        }
        let ghost es = aliases.entries();
        let ghost p = self.point@;
        let entry = &aliases.entries[self.entry];
        proof {
            assert(es[self.entry as int] == entry@);
            assert(es[self.entry as int].specifiers[self.value as int] == entry.specifiers@[self.value as int]@);
            assert(entry@.specifiers.len() == entry.specifiers@.len());
        }
        let value_count = entry.specifiers.len();
        if is_file {
            proof {
                assert(self.value < value_count);
            }
            self.value = self.value + 1;
            return self.advance(aliases, ctx);
        }
        let alias_value = match &entry.specifiers[self.value] {
            AliasValue::Path(v) => v,
            AliasValue::Ignore => {
                proof {
                    assert(false);
                }
                return AliasAction::Done(Ok(None));
            },
        };
        let n = match alias_value_specifier(
            self.request.as_str(),
            entry.key.as_str(),
            &entry.match_kind,
            alias_value.as_str(),
            false,
        ) {
            Some(n) => n,
            None => {
                proof {
                    assert(false);
                }
                return AliasAction::Done(Ok(None));
            },
        };
        self.should_stop = true;
        self.pending = Pending::Resolution;
        self.point = Ghost(spec_after_file(es, self.request@, self.dir@, p, false));
        ctx.with_fully_specified(false);
        AliasAction::Resolve(n)
    }

    fn on_resolved(
        &mut self,
        aliases: &CompiledAlias,
        outcome: Result<String, ResolveError>,
        ctx: &mut ResolveContext,
    ) -> (r: AliasAction)
        requires
            old(self).walks(aliases.entries()),
            old(self).expects_resolution(),
        ensures
            final(self).request() == old(self).request(),
            final(self).dir() == old(self).dir(),
            final(self).walks(aliases.entries()),
            final(self).point() == spec_after_resolve(
                aliases.entries(),
                old(self).request(),
                old(self).dir(),
                old(self).point(),
                event_outcome(outcome),
            ),
            action_view(r) == final(self).point().step,
            r is Resolve ==> *final(ctx) == (ResolveContext { fully_specified: false, ..*old(ctx) }),
            !(r is Resolve) ==> *final(ctx) == *old(ctx),
    {
        proof {
            use_type_invariant(aliases);
        }
        let ghost es = aliases.entries();
        let ghost p = self.point@;
        let entry = &aliases.entries[self.entry];
        let value_count = entry.specifiers.len();
        proof {
            assert(es[self.entry as int] == entry@);
            assert(entry@.specifiers.len() == entry.specifiers@.len());
        }
        match outcome {
            Ok(path) => {
                self.pending = Pending::Nothing;
                self.point = Ghost(WalkPoint { step: AliasStep::Found(path@), ..p });
                AliasAction::Done(Ok(Some(path)))
            },
            Err(ResolveError::NotFound(_)) => {
                proof {
                    assert(self.value < value_count);
                }
                self.value = self.value + 1;
                self.advance(aliases, ctx)
            },
            Err(ResolveError::MatchedAliasNotFound(_, _)) => {
                proof {
                    assert(self.value < value_count);
                }
                self.value = self.value + 1;
                self.advance(aliases, ctx)
            },
            Err(other) => {
                self.pending = Pending::Nothing;
                self.point = Ghost(WalkPoint { step: error_step(other), ..p });
                AliasAction::Done(Err(other))
            },
        }
    }
}

} // verus!
