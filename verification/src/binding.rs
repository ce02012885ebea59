//! The values that the Node.js binding hands to JavaScript for a resolution.
use vstd::prelude::*;

use crate::error::ResolveError;
use crate::resolution::{opt_chars, Resolution};

verus! {

/// Node.js builtin module when `Options::builtin_modules` is enabled.
#[derive(Debug, Clone, PartialEq, Eq)]
pub struct Builtin {
    /// Resolved module.
    ///
    /// Always prefixed with "node:" in compliance with the ESM specification.
    pub resolved: String,
    /// Whether the request was prefixed with `node:` or not.
    /// `fs` -> `false`.
    /// `node:fs` returns `true`.
    pub is_runtime_module: bool,
}

/// The module type as the binding reports it (`"module"`, `"commonjs"`, ...).
#[derive(Debug, Clone, Copy, PartialEq, Eq, Structural)]
pub enum ModuleType {
    Module,
    CommonJs,
    Json,
    Wasm,
    Addon,
}

pub open spec fn spec_binding_module_type(value: crate::resolution::ModuleType) -> ModuleType {
    match value {
        crate::resolution::ModuleType::Module => ModuleType::Module,
        crate::resolution::ModuleType::CommonJs => ModuleType::CommonJs,
        crate::resolution::ModuleType::Json => ModuleType::Json,
        crate::resolution::ModuleType::Wasm => ModuleType::Wasm,
        crate::resolution::ModuleType::Addon => ModuleType::Addon,
    }
}

impl From<crate::resolution::ModuleType> for ModuleType {
    fn from(value: crate::resolution::ModuleType) -> (r: Self) {
        match value {
            crate::resolution::ModuleType::Module => Self::Module,
            crate::resolution::ModuleType::CommonJs => Self::CommonJs,
            crate::resolution::ModuleType::Json => Self::Json,
            crate::resolution::ModuleType::Wasm => Self::Wasm,
            crate::resolution::ModuleType::Addon => Self::Addon,
        }
    }
}

impl vstd::std_specs::convert::FromSpecImpl<crate::resolution::ModuleType> for ModuleType {
    open spec fn obeys_from_spec() -> bool {
        true
    }

    open spec fn from_spec(value: crate::resolution::ModuleType) -> Self {
        spec_binding_module_type(value)
    }
}

/// The outcome of one resolution as the binding reports it.
#[derive(Debug, Clone)]
pub struct ResolveResult {
    pub path: Option<String>,
    pub error: Option<String>,
    pub builtin: Option<Builtin>,
    /// Module type for this path.
    pub module_type: Option<ModuleType>,
    /// `package.json` path for the given module.
    pub package_json_path: Option<String>,
}

impl ResolveResult {
    /// A successful resolution: its full path, module type and `package.json` path.
    pub fn from_resolution(resolution: &Resolution) -> (r: Self)
        ensures
            r.path matches Some(p) && p@ == resolution.spec_path() + opt_chars(resolution.spec_query())
                + opt_chars(resolution.spec_fragment()),
            r.error is None,
            r.builtin is None,
            r.module_type == match resolution.spec_module_type() {
                Some(m) => Some(spec_binding_module_type(m)),
                None => None,
            },
            match resolution.spec_package_json() {
                Some(p) => r.package_json_path matches Some(s) && s@ == p.path@,
                None => r.package_json_path is None,
            },
    {
        let module_type = match resolution.module_type() {
            Some(m) => Some(ModuleType::from(m)),
            None => None,
        };
        let package_json_path = match resolution.package_json() {
            Some(p) => Some(p.path().to_owned()),
            None => None,
        };
        ResolveResult {
            path: Some(resolution.full_path()),
            error: None,
            builtin: None,
            module_type,
            package_json_path,
        }
    }

    /// A failed resolution: its message, and the builtin module when that is the error.
    pub fn from_error(error: &ResolveError, message: String) -> (r: Self)
        ensures
            r.path is None,
            r.error == Some(message),
            r.module_type is None,
            r.package_json_path is None,
            match error {
                ResolveError::Builtin { resolved, is_runtime_module } => r.builtin matches Some(b)
                    && b.resolved@ == resolved@ && b.is_runtime_module == is_runtime_module,
                _ => r.builtin is None,
            },
    {
        let builtin = match error {
            ResolveError::Builtin { resolved, is_runtime_module } => Some(
                Builtin { resolved: resolved.clone(), is_runtime_module: *is_runtime_module },
            ),
            _ => None,
        };
        ResolveResult { path: None, error: Some(message), builtin, module_type: None, package_json_path: None }
    }
}

} // verus!
