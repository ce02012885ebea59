//! Package-map entry URLs, resolved against the package map's location.
//!
//! URL parsing follows the WHATWG rules that matter here: leading and trailing C0 controls and
//! spaces are trimmed, ASCII tabs and newlines are removed, backslashes are path separators, and
//! the query and fragment are dropped. Only `file:` URLs and relative URLs are supported.
use vstd::prelude::*;
use vstd::string::StringExecFns;

use crate::file_url::{has_encoded_separators, resolve_file_protocol, spec_has_encoded_separators, spec_resolve_file_protocol};
use crate::path::{chars_eq_ignore_ascii_case, eq_ignore_ascii_case, parent, spec_join, spec_normalize, spec_parent, PathUtil};
use crate::percent::{percent_decode_utf8, spec_percent_decode_utf8};
use crate::text::{chars_to_string, find_either, lemma_find_either, spec_find_either, str_chars, sub_chars};

verus! {

broadcast use vstd::string::group_string_axioms;

/// The `Debug` text of a string: the string between double quotes, with quotes, backslashes
/// and control characters escaped.
pub uninterp spec fn spec_debug_str(s: Seq<char>) -> Seq<char>;

/// `format!("{s:?}")`: the `Debug` text of `s`. Its result depends on `s` alone.
#[verifier::external_body]
pub(crate) fn debug_str(s: &str) -> (r: String)
    ensures
        r@ == spec_debug_str(s@),
{
    format!("{s:?}")
}

pub open spec fn is_c0_or_space(c: char) -> bool {
    c <= ' '
}

pub open spec fn spec_trim_start(s: Seq<char>) -> Seq<char>
    decreases s.len(),
{
    if s.len() > 0 && is_c0_or_space(s[0]) {
        spec_trim_start(s.skip(1))
    } else {
        s
    }
}

pub open spec fn spec_trim_end(s: Seq<char>) -> Seq<char>
    decreases s.len(),
{
    if s.len() > 0 && is_c0_or_space(s.last()) {
        spec_trim_end(s.drop_last())
    } else {
        s
    }
}

/// `s` without leading and trailing C0 controls and spaces.
pub open spec fn spec_trim(s: Seq<char>) -> Seq<char> {
    spec_trim_end(spec_trim_start(s))
}

/// `s` with ASCII tabs and newlines removed and backslashes turned into slashes.
pub open spec fn spec_clean(s: Seq<char>) -> Seq<char>
    decreases s.len(),
{
    if s.len() == 0 {
        Seq::empty()
    } else {
        spec_clean(s.drop_last()) + if s.last() == '\t' || s.last() == '\n' || s.last() == '\r' {
            Seq::empty()
        } else if s.last() == '\\' {
            seq!['/']
        } else {
            seq![s.last()]
        }
    }
}

/// The URL text that is looked at: trimmed, cleaned, and cut before the query or fragment.
pub open spec fn spec_url_text(raw: Seq<char>) -> Seq<char> {
    let v = spec_clean(spec_trim(raw));
    v.take(spec_find_either(v, '?', '#'))
}

pub open spec fn is_ascii_alpha(c: char) -> bool {
    ('a' <= c && c <= 'z') || ('A' <= c && c <= 'Z')
}

pub open spec fn is_ascii_digit(c: char) -> bool {
    '0' <= c && c <= '9'
}

pub open spec fn is_scheme_char(c: char) -> bool {
    is_ascii_alpha(c) || is_ascii_digit(c) || c == '+' || c == '-' || c == '.'
}

/// The index, from `i` on, of the first character that cannot continue a scheme.
pub open spec fn spec_scheme_end(v: Seq<char>, i: int) -> int
    decreases v.len() - i,
{
    if i < 0 || i >= v.len() {
        v.len() as int
    } else if !is_scheme_char(v[i]) {
        i
    } else {
        spec_scheme_end(v, i + 1)
    }
}

/// The scheme of `v` and the text after its `:`, when `v` starts with one.
pub open spec fn spec_split_url_scheme(v: Seq<char>) -> Option<(Seq<char>, Seq<char>)> {
    if v.len() == 0 || !is_ascii_alpha(v[0]) {
        None
    } else {
        let e = spec_scheme_end(v, 1);
        if e < v.len() && v[e] == ':' {
            Some((v.take(e), v.skip(e + 1)))
        } else {
            None
        }
    }
}

pub open spec fn is_hex_char(c: char) -> bool {
    is_ascii_digit(c) || ('a' <= c && c <= 'f') || ('A' <= c && c <= 'F')
}

/// Whether some `%` from index `i` on is not followed by two hexadecimal digits; a valid
/// escape is skipped whole.
pub open spec fn spec_invalid_percent_from(v: Seq<char>, i: int) -> bool
    decreases v.len() - i,
{
    if i < 0 || i >= v.len() {
        false
    } else if v[i] == '%' {
        if i + 2 >= v.len() || !is_hex_char(v[i + 1]) || !is_hex_char(v[i + 2]) {
            true
        } else {
            spec_invalid_percent_from(v, i + 3)
        }
    } else {
        spec_invalid_percent_from(v, i + 1)
    }
}

pub open spec fn starts_with(s: Seq<char>, p: Seq<char>) -> bool {
    p.len() <= s.len() && s.take(p.len() as int) == p
}

pub open spec fn spec_starts_with_windows_drive(v: Seq<char>) -> bool {
    v.len() >= 3 && is_ascii_alpha(v[0]) && v[1] == ':' && v[2] == '/'
}

pub open spec fn unsupported_scheme_reason(v: Seq<char>) -> Seq<char> {
    "an unsupported URL scheme in "@ + spec_debug_str(v)
        + "; only file URLs and relative URLs are supported"@
}

pub open spec fn invalid_file_url_reason(v: Seq<char>) -> Seq<char> {
    "an invalid file URL "@ + spec_debug_str(v)
}

pub open spec fn invalid_configuration_reason() -> Seq<char> {
    "an invalid configuration file path"@
}

/// A `file:` URL turned into a normalized path; `v` is the URL text for the error.
pub open spec fn spec_file_url_path(url: Seq<char>, v: Seq<char>) -> Result<Seq<char>, Seq<char>> {
    match spec_resolve_file_protocol(url) {
        Some(p) => Ok(spec_normalize(p)),
        None => Err(invalid_file_url_reason(v)),
    }
}

/// A relative URL resolved from the directory of the package map.
pub open spec fn spec_relative_url_path(package_map_path: Seq<char>, relative: Seq<char>, v: Seq<char>) -> Result<Seq<char>, Seq<char>> {
    if spec_has_encoded_separators(relative) {
        Err(invalid_file_url_reason(v))
    } else {
        match spec_parent(package_map_path) {
            None => Err(invalid_configuration_reason()),
            Some(base) => if relative.len() == 0 {
                Ok(base)
            } else {
                match spec_percent_decode_utf8(relative) {
                    Some(decoded) => Ok(spec_join(base, decoded)),
                    None => Err(invalid_file_url_reason(v)),
                }
            },
        }
    }
}

pub open spec fn file_colon() -> Seq<char> {
    seq!['f', 'i', 'l', 'e', ':']
}

pub open spec fn slash_slash() -> Seq<char> {
    seq!['/', '/']
}

/// An entry URL resolved against the package-map location: the path it names, or why it
/// names none.
pub open spec fn spec_resolve_url(package_map_path: Seq<char>, raw: Seq<char>) -> Result<Seq<char>, Seq<char>> {
    let v = spec_url_text(raw);
    let scheme = spec_split_url_scheme(v);
    if scheme matches Some(s) && !eq_ignore_ascii_case(s.0, seq!['f', 'i', 'l', 'e']) {
        Err(unsupported_scheme_reason(v))
    } else if spec_invalid_percent_from(v, 0) {
        Err(invalid_file_url_reason(v))
    } else if starts_with(v, slash_slash()) {
        spec_file_url_path(file_colon() + v, v)
    } else {
        match scheme {
            Some(s) => {
                let rest = s.1;
                if starts_with(rest, slash_slash()) {
                    spec_file_url_path(file_colon() + rest, v)
                } else if starts_with(rest, seq!['/']) || spec_starts_with_windows_drive(rest) {
                    spec_file_url_path(file_colon() + slash_slash() + rest, v)
                } else {
                    spec_relative_url_path(package_map_path, rest, v)
                }
            },
            None => spec_relative_url_path(package_map_path, v, v),
        }
    }
}

fn trim_c0(s: &[char]) -> (r: Vec<char>)
    ensures
        r@ == spec_trim(s@),
{
    let mut lo: usize = 0;
    proof {
        assert(s@.skip(0) =~= s@);
    }
    while lo < s.len() && s[lo] <= ' '
        invariant
            lo <= s@.len(),
            spec_trim_start(s@) == spec_trim_start(s@.skip(lo as int)),
        decreases s.len() - lo,
    {
        proof {
            assert(s@.skip(lo as int)[0] == s@[lo as int]);
            assert(s@.skip(lo as int).skip(1) =~= s@.skip(lo as int + 1));
        }
        lo = lo + 1;
    }
    let mut hi: usize = s.len();
    proof {
        assert(spec_trim_start(s@) == s@.skip(lo as int));
        assert(s@.subrange(lo as int, hi as int) =~= s@.skip(lo as int));
    }
    while hi > lo && s[hi - 1] <= ' '
        invariant
            lo <= hi <= s@.len(),
            spec_trim(s@) == spec_trim_end(s@.subrange(lo as int, hi as int)),
        decreases hi,
    {
        proof {
            assert(s@.subrange(lo as int, hi as int).last() == s@[hi - 1]);
            assert(s@.subrange(lo as int, hi as int).drop_last() =~= s@.subrange(lo as int, hi - 1));
        }
        hi = hi - 1;
    }
    sub_chars(s, lo, hi)
}

fn clean(s: &[char]) -> (r: Vec<char>)
    ensures
        r@ == spec_clean(s@),
{
    let mut out: Vec<char> = Vec::new();
    let mut i: usize = 0;
    proof {
        assert(s@.take(0) =~= Seq::<char>::empty());
    }
    while i < s.len()
        invariant
            i <= s@.len(),
            out@ == spec_clean(s@.take(i as int)),
        decreases s.len() - i,
    {
        let c = s[i];
        proof {
            assert(s@.take(i as int + 1).drop_last() =~= s@.take(i as int));
            assert(s@.take(i as int + 1).last() == c);
        }
        let ghost before = out@;
        if c == '\t' || c == '\n' || c == '\r' {
            proof {
                assert(out@ =~= before + Seq::<char>::empty());
            }
        } else if c == '\\' {
            out.push('/');
            proof {
                assert(out@ =~= before + seq!['/']);
            }
        } else {
            out.push(c);
            proof {
                assert(out@ =~= before + seq![c]);
            }
        }
        i = i + 1;
    }
    proof {
        assert(s@.take(s@.len() as int) =~= s@);
    }
    out
}

fn is_scheme_char_exec(c: char) -> (r: bool)
    ensures
        r == is_scheme_char(c),
{
    ('a' <= c && c <= 'z') || ('A' <= c && c <= 'Z') || ('0' <= c && c <= '9') || c == '+' || c == '-'
        || c == '.'
}

fn is_hex_char_exec(c: char) -> (r: bool)
    ensures
        r == is_hex_char(c),
{
    ('0' <= c && c <= '9') || ('a' <= c && c <= 'f') || ('A' <= c && c <= 'F')
}

/// The scheme of `v` and the text after its `:` (see [`spec_split_url_scheme`]).
fn split_url_scheme(v: &[char]) -> (r: Option<(Vec<char>, Vec<char>)>)
    ensures
        match spec_split_url_scheme(v@) {
            Some(p) => r matches Some(q) && q.0@ == p.0 && q.1@ == p.1,
            None => r is None,
        },
{
    if v.len() == 0 || !(('a' <= v[0] && v[0] <= 'z') || ('A' <= v[0] && v[0] <= 'Z')) {
        return None;
    }
    let mut i: usize = 1;
    while i < v.len() && is_scheme_char_exec(v[i])
        invariant
            1 <= i <= v@.len(),
            spec_scheme_end(v@, 1) == spec_scheme_end(v@, i as int),
        decreases v.len() - i,
    {
        i = i + 1;
    }
    if i < v.len() && v[i] == ':' {
        let scheme = sub_chars(v, 0, i);
        let rest = sub_chars(v, i + 1, v.len());
        proof {
            assert(scheme@ =~= v@.take(i as int));
            assert(rest@ =~= v@.skip(i as int + 1));
        }
        Some((scheme, rest))
    } else {
        None
    }
}

fn has_invalid_percent_encoding(v: &[char]) -> (r: bool)
    ensures
        r == spec_invalid_percent_from(v@, 0),
{
    let mut i: usize = 0;
    while i < v.len()
        invariant
            i <= v@.len(),
            spec_invalid_percent_from(v@, 0) == spec_invalid_percent_from(v@, i as int),
        decreases v.len() - i,
    {
        if v[i] == '%' {
            if v.len() - i <= 2 || !is_hex_char_exec(v[i + 1]) || !is_hex_char_exec(v[i + 2]) {
                return true;
            }
            i = i + 3;
        } else {
            i = i + 1;
        }
    }
    false
}

fn starts_with_exec(s: &[char], p: &[char]) -> (r: bool)
    ensures
        r == starts_with(s@, p@),
{
    crate::text::starts_with_chars(s, p)
}

fn starts_with_windows_drive(v: &[char]) -> (r: bool)
    ensures
        r == spec_starts_with_windows_drive(v@),
{
    v.len() >= 3 && (('a' <= v[0] && v[0] <= 'z') || ('A' <= v[0] && v[0] <= 'Z')) && v[1] == ':' && v[2] == '/'
}

fn invalid_file_url(v: &str) -> (r: String)
    ensures
        r@ == invalid_file_url_reason(v@),
{
    "an invalid file URL ".to_owned().concat(debug_str(v).as_str())
}

fn file_url_path(url: &str, v: &str) -> (r: Result<String, String>)
    ensures
        match spec_file_url_path(url@, v@) {
            Ok(p) => r matches Ok(s) && s@ == p,
            Err(e) => r matches Err(s) && s@ == e,
        },
{
    match resolve_file_protocol(url) {
        Ok(p) => Ok(p.as_str().normalize()),
        Err(_) => Err(invalid_file_url(v)),
    }
}

fn relative_url_path(package_map_path: &str, relative: &[char], v: &str) -> (r: Result<String, String>)
    ensures
        match spec_relative_url_path(package_map_path@, relative@, v@) {
            Ok(p) => r matches Ok(s) && s@ == p,
            Err(e) => r matches Err(s) && s@ == e,
        },
{
    if has_encoded_separators(relative) {
        return Err(invalid_file_url(v));
    }
    let base = match parent(package_map_path) {
        Some(b) => b,
        None => return Err("an invalid configuration file path".to_owned()),
    };
    if relative.len() == 0 {
        return Ok(base);
    }
    let text = chars_to_string(relative);
    match percent_decode_utf8(text.as_str()) {
        Some(decoded) => Ok(base.as_str().normalize_with(decoded.as_str())),
        None => Err(invalid_file_url(v)),
    }
}

/// Resolves an entry URL against the package-map location (see [`spec_resolve_url`]).
pub fn resolve_url_from(package_map_path: &str, value: &str) -> (r: Result<String, String>)
    ensures
        match spec_resolve_url(package_map_path@, value@) {
            Ok(p) => r matches Ok(s) && s@ == p,
            Err(e) => r matches Err(s) && s@ == e,
        },
{
    let raw = str_chars(value);
    let trimmed = trim_c0(raw.as_slice());
    let cleaned = clean(trimmed.as_slice());
    let end = find_either(cleaned.as_slice(), '?', '#');
    proof {
        lemma_find_either(cleaned@, '?', '#');
    }
    let v = sub_chars(cleaned.as_slice(), 0, end);
    proof {
        assert(v@ =~= spec_url_text(value@));
    }
    let text = chars_to_string(v.as_slice());
    let scheme = split_url_scheme(v.as_slice());
    let file: Vec<char> = vec!['f', 'i', 'l', 'e'];
    proof {
        assert(file@ =~= seq!['f', 'i', 'l', 'e']);
    }
    if let Some((s, _)) = &scheme {
        if !chars_eq_ignore_ascii_case(s, &file) {
            proof {
                reveal_strlit("an unsupported URL scheme in ");
            }
            return Err(
                "an unsupported URL scheme in ".to_owned().concat(debug_str(text.as_str()).as_str()).concat(
                    "; only file URLs and relative URLs are supported",
                ),
            );
        }
    }
    if has_invalid_percent_encoding(v.as_slice()) {
        return Err(invalid_file_url(text.as_str()));
    }
    let slashes: Vec<char> = vec!['/', '/'];
    let single: Vec<char> = vec!['/'];
    proof {
        assert(slashes@ =~= slash_slash());
        assert(single@ =~= seq!['/']);
        reveal_strlit("file:");
        reveal_strlit("file://");
        assert("file:"@ =~= file_colon());
        assert("file://"@ =~= file_colon() + slash_slash());
    }
    if starts_with_exec(v.as_slice(), slashes.as_slice()) {
        let url = "file:".to_owned().concat(text.as_str());
        return file_url_path(url.as_str(), text.as_str());
    }
    match scheme {
        Some((_, rest)) => {
            let rest_text = chars_to_string(rest.as_slice());
            if starts_with_exec(rest.as_slice(), slashes.as_slice()) {
                let url = "file:".to_owned().concat(rest_text.as_str());
                file_url_path(url.as_str(), text.as_str())
            } else if starts_with_exec(rest.as_slice(), single.as_slice()) || starts_with_windows_drive(rest.as_slice()) {
                let url = "file://".to_owned().concat(rest_text.as_str());
                file_url_path(url.as_str(), text.as_str())
            } else {
                relative_url_path(package_map_path, rest.as_slice(), text.as_str())
            }
        },
        None => relative_url_path(package_map_path, v.as_slice(), text.as_str()),
    }
}

} // verus!
