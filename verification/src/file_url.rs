//! `file://` URL specifiers.
use vstd::prelude::*;

use crate::error::ResolveError;
use crate::percent::{percent_decode_utf8, spec_percent_decode_utf8};
use crate::text::{
    chars_to_string, find_either, lemma_find_either, spec_find_either, starts_with_chars, str_chars,
    sub_chars,
};

verus! {

pub open spec fn file_scheme() -> Seq<char> {
    seq!['f', 'i', 'l', 'e', ':', '/', '/']
}

/// `pathname` holds `%2F` or `%2f` (an encoded `/`).
pub open spec fn spec_has_encoded_separators(s: Seq<char>) -> bool {
    exists|i: int|
        0 <= i && i + 2 < s.len() && #[trigger] s[i] == '%' && s[i + 1] == '2' && (s[i + 2] == 'F'
            || s[i + 2] == 'f')
}

/// The host and the path of `file://<host>/<path>`: with no host, everything after the first
/// `/` is the path; otherwise the host ends at the first `/`.
pub open spec fn spec_split_host(pwh: Seq<char>) -> (Seq<char>, Seq<char>) {
    if pwh.len() > 0 && pwh[0] == '/' {
        (Seq::empty(), pwh.skip(1))
    } else {
        let j = spec_find_either(pwh, '/', '/');
        if j < pwh.len() {
            (pwh.take(j), pwh.skip(j + 1))
        } else {
            (pwh, Seq::empty())
        }
    }
}

/// The POSIX file path of a `file://` URL: a host is refused, an encoded `/` is refused, and
/// the path must percent-decode to UTF-8. The query and fragment are kept.
pub open spec fn spec_file_url_to_path(host: Seq<char>, pathname: Seq<char>, query_fragment: Seq<char>) -> Option<Seq<char>> {
    if host.len() > 0 || spec_has_encoded_separators(pathname) {
        None
    } else {
        match spec_percent_decode_utf8(pathname) {
            Some(d) => Some(seq!['/'] + d + query_fragment),
            None => None,
        }
    }
}

/// `None` when the specifier is a `file://` URL that cannot be turned into a path.
pub open spec fn spec_resolve_file_protocol(s: Seq<char>) -> Option<Seq<char>> {
    if !(file_scheme().len() <= s.len() && s.take(7) == file_scheme()) {
        Some(s)
    } else {
        let after = s.skip(7);
        let q = spec_find_either(after, '?', '#');
        let pwh = after.take(q);
        let hp = spec_split_host(pwh);
        spec_file_url_to_path(hp.0, hp.1, after.skip(q))
    }
}

/// Check if pathname contains a percent-encoded `/`.
pub fn has_encoded_separators(pathname: &[char]) -> (r: bool)
    ensures
        r == spec_has_encoded_separators(pathname@),
{
    let mut i: usize = 0;
    while pathname.len() > 2 && i < pathname.len() - 2
        invariant
            i <= pathname@.len(),
            forall|k: int|
                0 <= k < i && k + 2 < pathname@.len() ==> !(#[trigger] pathname@[k] == '%'
                    && pathname@[k + 1] == '2' && (pathname@[k + 2] == 'F' || pathname@[k + 2]
                    == 'f')),
        decreases pathname.len() - i,
    {
        if pathname[i] == '%' && pathname[i + 1] == '2' && (pathname[i + 2] == 'F' || pathname[i + 2] == 'f') {
            return true;
        }
        i = i + 1;
    }
    false
}

fn file_url_to_path(specifier: &str, hostname: &[char], pathname: &[char], query_fragment: &[char]) -> (r: Result<String, ResolveError>)
    ensures
        match spec_file_url_to_path(hostname@, pathname@, query_fragment@) {
            Some(p) => r matches Ok(s) && s@ == p,
            None => r matches Err(e) && e matches ResolveError::PathNotSupported(sp) && sp@ == specifier@,
        },
{
    if hostname.len() > 0 {
        return Err(ResolveError::PathNotSupported(specifier.to_owned()));
    }
    if has_encoded_separators(pathname) {
        return Err(ResolveError::PathNotSupported(specifier.to_owned()));
    }
    let path_text = chars_to_string(pathname);
    match percent_decode_utf8(path_text.as_str()) {
        None => Err(ResolveError::PathNotSupported(specifier.to_owned())),
        Some(decoded) => {
            let mut out: Vec<char> = vec!['/'];
            let d = str_chars(decoded.as_str());
            let mut i: usize = 0;
            while i < d.len()
                invariant
                    i <= d@.len(),
                    out@ == seq!['/'] + d@.take(i as int),
                decreases d.len() - i,
            {
                out.push(d[i]);
                proof {
                    assert(d@.take(i as int + 1) =~= d@.take(i as int).push(d@[i as int]));
                }
                i = i + 1;
            }
            let mut j: usize = 0;
            proof {
                assert(d@.take(d@.len() as int) =~= d@);
            }
            while j < query_fragment.len()
                invariant
                    j <= query_fragment@.len(),
                    out@ == seq!['/'] + d@ + query_fragment@.take(j as int),
                decreases query_fragment.len() - j,
            {
                out.push(query_fragment[j]);
                proof {
                    assert(query_fragment@.take(j as int + 1) =~= query_fragment@.take(j as int).push(query_fragment@[j as int]));
                }
                j = j + 1;
            }
            proof {
                assert(query_fragment@.take(query_fragment@.len() as int) =~= query_fragment@);
            }
            Ok(chars_to_string(out.as_slice()))
        },
    }
}

/// Convert a `file://` URL specifier to a file path, or return the specifier as-is if it's not
/// a `file://` URL. Follows the Node.js `getPathFromURLPosix` algorithm.
pub fn resolve_file_protocol(specifier: &str) -> (r: Result<String, ResolveError>)
    ensures
        match spec_resolve_file_protocol(specifier@) {
            Some(p) => r matches Ok(s) && s@ == p,
            None => r matches Err(e) && e matches ResolveError::PathNotSupported(sp) && sp@ == specifier@,
        },
{
    let chars = str_chars(specifier);
    let scheme: Vec<char> = vec!['f', 'i', 'l', 'e', ':', '/', '/'];
    proof {
        assert(scheme@ =~= file_scheme());
    }
    if !starts_with_chars(chars.as_slice(), scheme.as_slice()) {
        return Ok(specifier.to_owned());
    }
    let after = sub_chars(chars.as_slice(), 7, chars.len());
    proof {
        assert(after@ =~= chars@.skip(7));
    }
    let q = find_either(after.as_slice(), '?', '#');
    proof {
        lemma_find_either(after@, '?', '#');
    }
    let pwh = sub_chars(after.as_slice(), 0, q);
    let query_fragment = sub_chars(after.as_slice(), q, after.len());
    proof {
        assert(pwh@ =~= after@.take(q as int));
        assert(query_fragment@ =~= after@.skip(q as int));
    }
    if pwh.len() > 0 && pwh[0] == '/' {
        let host: Vec<char> = Vec::new();
        let pathname = sub_chars(pwh.as_slice(), 1, pwh.len());
        proof {
            assert(pathname@ =~= pwh@.skip(1));
            assert(host@ =~= Seq::<char>::empty());
        }
        file_url_to_path(specifier, host.as_slice(), pathname.as_slice(), query_fragment.as_slice())
    } else {
        let j = find_either(pwh.as_slice(), '/', '/');
        proof {
            lemma_find_either(pwh@, '/', '/');
        }
        if j < pwh.len() {
            let host = sub_chars(pwh.as_slice(), 0, j);
            let pathname = sub_chars(pwh.as_slice(), j + 1, pwh.len());
            proof {
                assert(host@ =~= pwh@.take(j as int));
                assert(pathname@ =~= pwh@.skip(j as int + 1));
            }
            file_url_to_path(specifier, host.as_slice(), pathname.as_slice(), query_fragment.as_slice())
        } else {
            let empty: Vec<char> = Vec::new();
            proof {
                assert(empty@ =~= Seq::<char>::empty());
            }
            file_url_to_path(specifier, pwh.as_slice(), empty.as_slice(), query_fragment.as_slice())
        }
    }
}

} // verus!
