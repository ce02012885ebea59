//! Per-resolution state.
use vstd::prelude::*;

use crate::error::ResolveError;

verus! {

/// The deepest alias recursion a resolution may go through.
pub const MAX_DEPTH: u8 = 64;

#[derive(Debug, Default, Clone)]
pub struct ResolveContext {
    pub fully_specified: bool,
    pub query: Option<String>,
    pub fragment: Option<String>,
    /// Files that was found on file system.
    pub file_dependencies: Option<Vec<String>>,
    /// Dependencies that was not found on file system.
    pub missing_dependencies: Option<Vec<String>>,
    /// The current resolving alias for bailing recursion alias.
    pub resolving_alias: Option<String>,
    /// For avoiding infinite recursion, which will cause stack overflow.
    pub depth: u8,
    pub resolve_file: bool,
}

/// `after` is the dependency list `before` with `dep` recorded at its end; nothing is recorded
/// when dependencies are not being collected.
pub open spec fn recorded(before: Option<Vec<String>>, after: Option<Vec<String>>, dep: Seq<char>) -> bool {
    match before {
        Some(d) => after matches Some(n) && n@.len() == d@.len() + 1 && n@.drop_last() == d@ && n@.last()@ == dep,
        None => after is None,
    }
}

/// The two contexts agree on everything but their dependency lists.
pub open spec fn same_but_dependencies(a: ResolveContext, b: ResolveContext) -> bool {
    &&& a.fully_specified == b.fully_specified
    &&& a.query == b.query
    &&& a.fragment == b.fragment
    &&& a.resolving_alias == b.resolving_alias
    &&& a.depth == b.depth
    &&& a.resolve_file == b.resolve_file
}

impl ResolveContext {
    pub fn with_fully_specified(&mut self, yes: bool)
        ensures
            *final(self) == (ResolveContext { fully_specified: yes, ..*old(self) }),
    {
        self.fully_specified = yes;
    }

    pub fn with_query_fragment(&mut self, query: Option<&str>, fragment: Option<&str>)
        ensures
            query matches Some(q) ==> final(self).query matches Some(r) && r@ == q@,
            query is None ==> final(self).query == old(self).query,
            fragment matches Some(f) ==> final(self).fragment matches Some(r) && r@ == f@,
            fragment is None ==> final(self).fragment == old(self).fragment,
            final(self).fully_specified == old(self).fully_specified,
            final(self).file_dependencies == old(self).file_dependencies,
            final(self).missing_dependencies == old(self).missing_dependencies,
            final(self).resolving_alias == old(self).resolving_alias,
            final(self).depth == old(self).depth,
            final(self).resolve_file == old(self).resolve_file,
    {
        if let Some(query) = query {
            self.query = Some(query.to_owned());
        }
        if let Some(fragment) = fragment {
            self.fragment = Some(fragment.to_owned());
        }
    }

    pub fn init_file_dependencies(&mut self)
        ensures
            final(self).file_dependencies matches Some(d) && d@.len() == 0,
            final(self).missing_dependencies matches Some(d) && d@.len() == 0,
            final(self).fully_specified == old(self).fully_specified,
            final(self).query == old(self).query,
            final(self).fragment == old(self).fragment,
            final(self).resolving_alias == old(self).resolving_alias,
            final(self).depth == old(self).depth,
            final(self).resolve_file == old(self).resolve_file,
    {
        self.file_dependencies = Some(Vec::new());
        self.missing_dependencies = Some(Vec::new());
    }

    /// Records a file found on the file system, when dependencies are being collected.
    pub fn add_file_dependency(&mut self, dep: &str)
        ensures
            match old(self).file_dependencies {
                Some(d) => final(self).file_dependencies matches Some(n) && n@.len() == d@.len() + 1
                    && n@.drop_last() == d@ && n@.last()@ == dep@,
                None => final(self).file_dependencies is None,
            },
            final(self).missing_dependencies == old(self).missing_dependencies,
            final(self).fully_specified == old(self).fully_specified,
            final(self).query == old(self).query,
            final(self).fragment == old(self).fragment,
            final(self).resolving_alias == old(self).resolving_alias,
            final(self).depth == old(self).depth,
            final(self).resolve_file == old(self).resolve_file,
    {
        let mut deps = self.file_dependencies.take();
        if let Some(d) = &mut deps {
            d.push(dep.to_owned());
        }
        self.file_dependencies = deps;
    }

    /// Records a path missing from the file system, when dependencies are being collected.
    pub fn add_missing_dependency(&mut self, dep: &str)
        ensures
            match old(self).missing_dependencies {
                Some(d) => final(self).missing_dependencies matches Some(n) && n@.len() == d@.len() + 1
                    && n@.drop_last() == d@ && n@.last()@ == dep@,
                None => final(self).missing_dependencies is None,
            },
            final(self).file_dependencies == old(self).file_dependencies,
            final(self).fully_specified == old(self).fully_specified,
            final(self).query == old(self).query,
            final(self).fragment == old(self).fragment,
            final(self).resolving_alias == old(self).resolving_alias,
            final(self).depth == old(self).depth,
            final(self).resolve_file == old(self).resolve_file,
    {
        let mut deps = self.missing_dependencies.take();
        if let Some(d) = &mut deps {
            d.push(dep.to_owned());
        }
        self.missing_dependencies = deps;
    }

    pub fn with_resolving_alias(&mut self, alias: String)
        ensures
            *final(self) == (ResolveContext { resolving_alias: Some(alias), ..*old(self) }),
    {
        self.resolving_alias = Some(alias);
    }

    /// Increases the context's depth in order to detect recursion: more than [`MAX_DEPTH`]
    /// levels are an error.
    pub fn test_for_infinite_recursion(&mut self) -> (r: Result<(), ResolveError>)
        requires
            old(self).depth < 255,
        ensures
            *final(self) == (ResolveContext { depth: (old(self).depth + 1) as u8, ..*old(self) }),
            r is Ok <==> old(self).depth + 1 <= MAX_DEPTH,
            r is Err ==> r == Err::<(), ResolveError>(ResolveError::Recursion),
    {
        self.depth = self.depth + 1;
        if self.depth > MAX_DEPTH {
            return Err(ResolveError::Recursion);
        }
        Ok(())
    }
}

} // verus!
