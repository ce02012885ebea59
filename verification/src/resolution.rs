//! The result of a resolution.
use std::sync::Arc;

use vstd::prelude::*;
use vstd::string::StringExecFns;

use crate::package_json::PackageJson;

verus! {

#[derive(Debug, Clone, Copy, Eq, PartialEq, Structural)]
pub enum ModuleType {
    Module,
    CommonJs,
    Json,
    Wasm,
    Addon,
}

pub open spec fn opt_string_view(o: Option<String>) -> Option<Seq<char>> {
    match o {
        Some(s) => Some(s@),
        None => None,
    }
}

pub open spec fn opt_chars(o: Option<Seq<char>>) -> Seq<char> {
    match o {
        Some(s) => s,
        None => Seq::empty(),
    }
}

/// The final path resolution with optional `?query` and `#fragment`.
pub struct Resolution {
    path: String,
    /// Path query `?query`, contains `?`.
    query: Option<String>,
    /// Path fragment `#query`, contains `#`.
    fragment: Option<String>,
    /// `package.json` for the given module.
    package_json: Option<Arc<PackageJson>>,
    /// Module type for this path.
    ///
    /// The module type is computed `ESM_FILE_FORMAT` from the ESM resolution algorithm
    /// specification: the file extension, or the closest `package.json` with the `type` field.
    module_type: Option<ModuleType>,
}

impl Resolution {
    pub closed spec fn spec_path(self) -> Seq<char> {
        self.path@
    }

    pub closed spec fn spec_query(self) -> Option<Seq<char>> {
        opt_string_view(self.query)
    }

    pub closed spec fn spec_fragment(self) -> Option<Seq<char>> {
        opt_string_view(self.fragment)
    }

    pub closed spec fn spec_module_type(self) -> Option<ModuleType> {
        self.module_type
    }

    pub closed spec fn spec_package_json(self) -> Option<Arc<PackageJson>> {
        self.package_json
    }

    pub fn new(
        path: String,
        query: Option<String>,
        fragment: Option<String>,
        package_json: Option<Arc<PackageJson>>,
        module_type: Option<ModuleType>,
    ) -> (r: Self)
        ensures
            r.spec_path() == path@,
            r.spec_query() == opt_string_view(query),
            r.spec_fragment() == opt_string_view(fragment),
            r.spec_package_json() == package_json,
            r.spec_module_type() == module_type,
    {
        Resolution { path, query, fragment, package_json, module_type }
    }

    /// Returns the path without query and fragment
    pub fn path(&self) -> (r: &str)
        ensures
            r@ == self.spec_path(),
    {
        self.path.as_str()
    }

    /// Returns the path without query and fragment
    pub fn into_path_buf(self) -> (r: String)
        ensures
            r@ == self.spec_path(),
    {
        self.path
    }

    /// Returns the path query `?query`, contains the leading `?`
    pub fn query(&self) -> (r: Option<&str>)
        ensures
            match self.spec_query() {
                Some(q) => r matches Some(s) && s@ == q,
                None => r is None,
            },
    {
        match &self.query {
            Some(q) => Some(q.as_str()),
            None => None,
        }
    }

    /// Returns the path fragment `#fragment`, contains the leading `#`
    pub fn fragment(&self) -> (r: Option<&str>)
        ensures
            match self.spec_fragment() {
                Some(q) => r matches Some(s) && s@ == q,
                None => r is None,
            },
    {
        match &self.fragment {
            Some(q) => Some(q.as_str()),
            None => None,
        }
    }

    /// Returns the `package.json` of the given module.
    pub fn package_json(&self) -> (r: Option<&Arc<PackageJson>>)
        ensures
            match self.spec_package_json() {
                Some(p) => r == Some(&p),
                None => r is None,
            },
    {
        match &self.package_json {
            Some(p) => Some(p),
            None => None,
        }
    }

    /// Returns the full path with query and fragment
    pub fn full_path(&self) -> (r: String)
        ensures
            r@ == self.spec_path() + opt_chars(self.spec_query()) + opt_chars(self.spec_fragment()),
    {
        let mut out = self.path.clone();
        if let Some(query) = &self.query {
            out.append(query.as_str());
        }
        if let Some(fragment) = &self.fragment {
            out.append(fragment.as_str());
        }
        proof {
            assert(out@ =~= self.path@ + opt_chars(self.spec_query()) + opt_chars(self.spec_fragment()));
        }
        out
    }

    /// Returns the module type of this path.
    pub fn module_type(&self) -> (r: Option<ModuleType>)
        ensures
            r == self.spec_module_type(),
    {
        self.module_type
    }
}

} // verus!
