use vstd::prelude::*;
use vstd::string::StringSliceAdditionalSpecFns;
use vstd::utf8::{encode_utf8, valid_utf8};

use crate::error::{IOError, IoErrorKind};

verus! {

/// Metadata information about a file
#[derive(Debug, Clone, Copy, PartialEq, Eq)]
pub struct FileMetadata {
    pub is_file: bool,
    pub is_dir: bool,
    pub is_symlink: bool,
}

impl FileMetadata {
    pub fn new(is_file: bool, is_dir: bool, is_symlink: bool) -> (meta: Self)
        ensures
            meta.is_file == is_file,
            meta.is_dir == is_dir,
            meta.is_symlink == is_symlink,
    {
        Self { is_file, is_dir, is_symlink }
    }

    pub fn is_file(self) -> (r: bool)
        ensures
            r == self.is_file,
    {
        self.is_file
    }

    pub fn is_dir(self) -> (r: bool)
        ensures
            r == self.is_dir,
    {
        self.is_dir
    }

    pub fn is_symlink(self) -> (r: bool)
        ensures
            r == self.is_symlink,
    {
        self.is_symlink
    }
}

/// `simdutf8::basic::from_utf8`: the input as text when it is valid UTF-8 (the same bytes).
#[verifier::external_body]
fn simd_from_utf8(input: &[u8]) -> (r: Option<&str>)
    ensures
        r is Some <==> valid_utf8(input@),
        r matches Some(s) ==> s.spec_bytes() == input@,
{
    simdutf8::basic::from_utf8(input).ok()
}

pub open spec fn invalid_utf8_message() -> Seq<char> {
    "stream did not contain valid UTF-8"@
}

/// The file system's view of text files.
pub struct FileSystemOs;

impl FileSystemOs {
    /// The bytes as a string when they are valid UTF-8; otherwise the error that
    /// `fs::read_to_string` gives for such a file.
    pub fn validate_string(bytes: Vec<u8>) -> (r: Result<String, IOError>)
        ensures
            valid_utf8(bytes@) ==> (r matches Ok(s) && encode_utf8(s@) == bytes@),
            !valid_utf8(bytes@) ==> (r matches Err(e) && e.kind == IoErrorKind::InvalidData
                && e.message@ == invalid_utf8_message()),
    {
        match simd_from_utf8(bytes.as_slice()) {
            Some(s) => Ok(s.to_owned()),
            None => Err(IOError { kind: IoErrorKind::InvalidData, message: "stream did not contain valid UTF-8".to_owned() }),
        }
    }
}

} // verus!
