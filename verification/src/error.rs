//! Resolution errors.
use vstd::prelude::*;

verus! {

#[verifier::external_type_specification]
#[verifier::external_body]
pub struct ExSerdeJsonError(serde_json::Error);

/// The kind of an I/O error: the kinds of `std::io::ErrorKind` that the library tells apart,
/// and `Other` for any other.
#[derive(Debug, Clone, Copy, PartialEq, Eq, Structural)]
pub enum IoErrorKind {
    NotFound,
    PermissionDenied,
    ConnectionRefused,
    ConnectionReset,
    ConnectionAborted,
    NotConnected,
    AddrInUse,
    AddrNotAvailable,
    BrokenPipe,
    AlreadyExists,
    WouldBlock,
    InvalidInput,
    InvalidData,
    TimedOut,
    WriteZero,
    Interrupted,
    Unsupported,
    UnexpectedEof,
    OutOfMemory,
    Other,
}

/// All resolution errors. Paths are carried as text.
#[derive(Debug, Clone, PartialEq)]
#[non_exhaustive]
pub enum ResolveError {
    /// Ignored path
    ///
    /// Derived from ignored path (false value) from browser field in package.json
    Ignored(String),
    /// Module not found
    NotFound(String),
    /// Matched alias value not found: the specifier and the alias key.
    MatchedAliasNotFound(String, String),
    /// Tsconfig not found
    TsconfigNotFound(String),
    /// The tsconfig file at `path` could not be loaded, for the reason `source`.
    TsconfigLoadFailed { path: String, source: TsconfigLoadError },
    /// Tsconfig's project reference path points to it self
    TsconfigSelfReference(String),
    /// Occurs when tsconfig extends configs circularly
    TsconfigCircularExtend(CircularPathBufs),
    IOError(IOError),
    /// Indicates the resulting path won't be consumable by NodeJS `import` or `require`.
    PathNotSupported(String),
    /// Node.js builtin module when `Options::builtin_modules` is enabled.
    Builtin { resolved: String, is_runtime_module: bool },
    /// All of the aliased extension are not found: file name, tried file names, directory.
    ExtensionAlias(String, String, String),
    /// The provided path specifier cannot be parsed
    Specifier(SpecifierError),
    /// JSON parse error
    Json(JSONError),
    InvalidModuleSpecifier(String, String),
    InvalidPackageTarget(String, String, String),
    PackagePathNotExported(String, String),
    InvalidPackageConfig(String),
    InvalidPackageConfigDefault(String),
    InvalidPackageConfigDirectory(String),
    PackageImportNotDefined(String, String),
    Unimplemented(String),
    /// Occurs when alias paths reference each other.
    Recursion,
    /// The package map file is not a valid package map.
    PackageMapInvalid { package_map_path: String, reason: String },
    /// Several package IDs own the importer's location.
    PackageMapAmbiguousResolution { specifier: String, parent_path: String, package_map_path: String },
    /// No package of the map owns the importer's location.
    PackageMapExternalFile { specifier: String, parent_path: String, package_map_path: String },
    /// A dependency names a package ID that the map does not hold.
    PackageMapKeyNotFound { package_id: String, package_map_path: String },
}

/// What `serde_json::Error::line` gives for an error: the line where it was found.
pub uninterp spec fn spec_json_error_line(error: serde_json::Error) -> usize;

/// What `serde_json::Error::column` gives for an error: the column where it was found.
pub uninterp spec fn spec_json_error_column(error: serde_json::Error) -> usize;

/// The text that the `Display` of a `serde_json::Error` writes for it.
pub uninterp spec fn spec_json_error_message(error: serde_json::Error) -> Seq<char>;

/// The line of a `serde_json` error (`serde_json::Error::line`), a function of the error alone.
#[verifier::external_body]
fn serde_json_error_line(error: &serde_json::Error) -> (r: usize)
    ensures
        r == spec_json_error_line(*error),
{
    error.line()
}

/// The column of a `serde_json` error (`serde_json::Error::column`), a function of the error
/// alone.
#[verifier::external_body]
fn serde_json_error_column(error: &serde_json::Error) -> (r: usize)
    ensures
        r == spec_json_error_column(*error),
{
    error.column()
}

/// The message of a `serde_json` error (its `Display` text), a function of the error alone.
#[verifier::external_body]
fn serde_json_error_message(error: &serde_json::Error) -> (r: String)
    ensures
        r@ == spec_json_error_message(*error),
{
    error.to_string()
}

impl ResolveError {
    pub fn is_ignore(&self) -> (r: bool)
        ensures
            r == (self is Ignored),
    {
        match self {
            ResolveError::Ignored(_) => true,
            _ => false,
        }
    }

    /// The JSON error at `path` that `error` describes: its message, line and column.
    pub fn from_serde_json_error(path: String, error: &serde_json::Error) -> (r: Self)
        ensures
            r matches ResolveError::Json(e) && e.path == path && e.message@ == spec_json_error_message(*error)
                && e.line == spec_json_error_line(*error) && e.column == spec_json_error_column(*error),
    {
        ResolveError::Json(
            JSONError {
                path,
                message: serde_json_error_message(error),
                line: serde_json_error_line(error),
                column: serde_json_error_column(error),
            },
        )
    }

    /// The error for an I/O failure of the given kind.
    pub fn from_io_error(kind: IoErrorKind, message: String) -> (r: Self)
        ensures
            r == ResolveError::IOError(IOError { kind, message }),
    {
        ResolveError::IOError(IOError { kind, message })
    }
}

/// Why a tsconfig file could not be loaded: it could not be read, or it is not valid JSON.
#[derive(Debug, Clone, PartialEq)]
pub enum TsconfigLoadError {
    IOError(IOError),
    Json(JSONError),
}

/// Error for [ResolveError::Specifier]
#[derive(Debug, Clone, PartialEq, Eq)]
pub enum SpecifierError {
    /// The specifiers must be a non-empty string.
    Empty(String),
}

/// JSON error
#[derive(Debug, Clone, PartialEq, Eq)]
pub struct JSONError {
    pub path: String,
    pub message: String,
    pub line: usize,
    pub column: usize,
}

/// An I/O error: its kind and its message. Two I/O errors are equal when their kinds are.
#[derive(Debug, Clone)]
pub struct IOError {
    pub kind: IoErrorKind,
    pub message: String,
}

impl PartialEq for IOError {
    fn eq(&self, other: &Self) -> (r: bool) {
        self.kind == other.kind
    }
}

impl vstd::std_specs::cmp::PartialEqSpecImpl for IOError {
    open spec fn obeys_eq_spec() -> bool {
        true
    }

    open spec fn eq_spec(&self, other: &Self) -> bool {
        self.kind == other.kind
    }
}

/// The chain of configuration files that extend one another in a circle.
#[derive(Debug, Clone, PartialEq, Eq)]
pub struct CircularPathBufs(pub Vec<String>);

impl From<Vec<String>> for CircularPathBufs {
    fn from(value: Vec<String>) -> (r: Self) {
        Self(value)
    }
}

impl vstd::std_specs::convert::FromSpecImpl<Vec<String>> for CircularPathBufs {
    open spec fn obeys_from_spec() -> bool {
        true
    }

    open spec fn from_spec(value: Vec<String>) -> Self {
        CircularPathBufs(value)
    }
}

} // verus!
