# rspack_resolver

The decision logic of a Node.js / webpack-style module resolver, verified with Verus.

- `src/` is the verified library. Paths are text: `path` (components, normalization,
  joining, parents) with its laws in `path_laws`; `package_json` (fields, `exports`/`imports`
  views, the `"browser"` field and its file-name index); `package_map` (Node's package maps:
  shape checks, entry URLs, owners of a location, dependency edges); `alias` (compiled alias
  tables and the alias walk); `dts` (declaration-file resolution: extensions, candidates,
  `typesVersions`, the order of the lookups of one resolution, the file probe, and the
  directory, package and `node_modules` lookups); `cache` (interned
  paths, the path arena, lazily filled slots, canonicalization, the `package.json` search and
  the probes around file-system metadata); `file_url`, `percent`, `node_path`, `resolution`,
  `binding`, `context`, `error`, `perf`.
- Lookups that need the file system are state machines: each step returns an action (is this
  a directory, read this file, ...) and takes the answer as an event, so the decisions are
  verified and the caller does the I/O. Probes go through `cache::probe`, which records each
  one in the resolution's dependencies as a file or a missing path.
- `app/` holds what cannot be verified: file-system access, JSON parsing with `serde_json`,
  drivers that run the state machines against the file system, error types with `thiserror`,
  environment variables, and floating-point statistics.
- `tests/` exercises the library on concrete values.
