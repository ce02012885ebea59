use rspack_resolver::dts::{
    dts_package_entry, dts_version_paths_specifier, dts_at_types_specifier, dts_extensions_to_try, dts_get_known_extension,
    dts_get_matching_version_paths, dts_mangle_scoped_name, dts_match_pattern, dts_module_type,
    Extensions,
};
use rspack_resolver::context::ResolveContext;
use rspack_resolver::dts::directory::{DirAction, DirEvent, DtsDirectoryLookup};
use rspack_resolver::dts::file_probe::{DtsFileProbe, FileProbeAction};
use rspack_resolver::dts::lookup::{dts_finalize, DtsAction, DtsEvent, DtsResolution};
use rspack_resolver::resolution::Resolution;
use rspack_resolver::FileMetadata;
use rspack_resolver::dts::node_modules::{DtsModulesWalk, ModulesAction, ModulesEvent};
use rspack_resolver::dts::package_lookup::{DtsPackageLookup, PackageAction, PackageEvent};
use rspack_resolver::dts::{dts_route, DtsRoute};
use rspack_resolver::dts::{dts_file_candidates, dts_version_path_candidates};
use rspack_resolver::error::ResolveError;
use rspack_resolver::path::push_path;
use rspack_resolver::json::{JsonObject, JsonValue};
use rspack_resolver::package_json::PackageJson;
use rspack_resolver::resolution::ModuleType;

fn all() -> Extensions {
    Extensions::typescript().union(Extensions::javascript()).union(Extensions::declaration())
}

#[test]
fn extension_sets() {
    let all = all();
    assert!(all.contains(Extensions::typescript()));
    assert!(all.contains(Extensions::typescript().union(Extensions::declaration())));
    let priority = all.intersection(Extensions::typescript().union(Extensions::declaration()));
    let secondary = all.difference(Extensions::typescript().union(Extensions::declaration()));
    assert_eq!(priority, Extensions(0b101));
    assert_eq!(secondary, Extensions::javascript());
    assert!(!secondary.intersects(priority));
    assert!(Extensions(0).is_empty());
    assert!(!priority.is_empty());
}

#[test]
fn known_extensions() {
    assert_eq!(dts_get_known_extension("./foo.d.ts"), Some(".d.ts".to_string()));
    assert_eq!(dts_get_known_extension("./foo.d.mts"), Some(".d.mts".to_string()));
    assert_eq!(dts_get_known_extension("./foo.js"), Some(".js".to_string()));
    assert_eq!(dts_get_known_extension("./foo.vue"), Some(".vue".to_string()));
    assert_eq!(dts_get_known_extension("./foo.verylongext"), None);
    assert_eq!(dts_get_known_extension("foo"), None);
    assert_eq!(dts_get_known_extension("/a.b/c"), None);
    assert_eq!(dts_get_known_extension("/a.b/c.ts"), Some(".ts".to_string()));
}

fn strings(v: &[&str]) -> Vec<String> {
    v.iter().map(|s| s.to_string()).collect()
}

#[test]
fn extension_table() {
    assert_eq!(dts_extensions_to_try(all(), ".js"), strings(&[".ts", ".tsx", ".d.ts", ".js", ".jsx"]));
    assert_eq!(dts_extensions_to_try(all(), ""), strings(&[".ts", ".tsx", ".d.ts", ".js", ".jsx"]));
    assert_eq!(dts_extensions_to_try(all(), ".mjs"), strings(&[".mts", ".d.mts", ".mjs"]));
    assert_eq!(dts_extensions_to_try(all(), ".d.cts"), strings(&[".cts", ".d.cts", ".cjs"]));
    assert_eq!(dts_extensions_to_try(all(), ".jsx"), strings(&[".tsx", ".ts", ".d.ts", ".jsx", ".js"]));
    assert_eq!(dts_extensions_to_try(all(), ".json"), strings(&[".d.json.ts"]));
    assert_eq!(dts_extensions_to_try(all(), ".vue"), strings(&[".d.vue.ts"]));
    assert_eq!(dts_extensions_to_try(Extensions::javascript(), ".vue"), strings(&[]));
    assert_eq!(dts_extensions_to_try(Extensions::declaration(), ".ts"), strings(&[".d.ts"]));
}

#[test]
fn types_names() {
    assert_eq!(dts_mangle_scoped_name("@babel/core"), "babel__core");
    assert_eq!(dts_mangle_scoped_name("react"), "react");
    assert_eq!(dts_mangle_scoped_name("@scope"), "scope");
    assert_eq!(dts_at_types_specifier("@babel/core", "/lib/x"), "babel__core/lib/x");
}

#[test]
fn patterns() {
    assert_eq!(dts_match_pattern("*", "foo/bar"), Some("foo/bar".to_string()));
    assert_eq!(dts_match_pattern("lib/*.d.ts", "lib/a.d.ts"), Some("a".to_string()));
    assert_eq!(dts_match_pattern("lib/*", "src/a"), None);
    assert_eq!(dts_match_pattern("ab*bc", "abc"), None);
    assert_eq!(dts_match_pattern("exact", "exact"), Some(String::new()));
    assert_eq!(dts_match_pattern("exact", "other"), None);
}

#[test]
fn module_types() {
    assert_eq!(dts_module_type("/a/b.d.mts"), Some(ModuleType::Module));
    assert_eq!(dts_module_type("/a/b.cts"), Some(ModuleType::CommonJs));
    assert_eq!(dts_module_type("/a/b.json"), Some(ModuleType::Json));
    assert_eq!(dts_module_type("/a/b.d.ts"), None);
}

#[test]
fn version_paths() {
    let object = |entries: Vec<(&str, JsonValue)>| {
        JsonValue::Object(JsonObject { entries: entries.into_iter().map(|(k, v)| (k.to_string(), v)).collect() })
    };
    let root = object(vec![(
        "typesVersions",
        object(vec![
            ("<4.0", JsonValue::Bool(true)),
            ("<4.5", object(vec![("x", JsonValue::Null)])),
            (
                "*",
                object(vec![
                    ("*", JsonValue::Array(vec![JsonValue::String("ts/*".into()), JsonValue::Null])),
                    ("index", JsonValue::String("ts/index.d.ts".into())),
                ]),
            ),
        ]),
    )]);
    let pkg = PackageJson::new("/p/package.json".into(), "/p/package.json".into(), root);
    assert_eq!(
        dts_get_matching_version_paths(&pkg),
        Some(vec![
            ("*".to_string(), vec!["ts/*".to_string()]),
            ("index".to_string(), vec!["ts/index.d.ts".to_string()]),
        ])
    );
    let none = PackageJson::new("/p/package.json".into(), "/p/package.json".into(), object(vec![]));
    assert_eq!(dts_get_matching_version_paths(&none), None);
}

#[test]
fn package_entries() {
    let object = |entries: Vec<(&str, &str)>| {
        JsonValue::Object(JsonObject {
            entries: entries.into_iter().map(|(k, v)| (k.to_string(), JsonValue::String(v.to_string()))).collect(),
        })
    };
    let full = PackageJson::new(
        "/p/package.json".into(),
        "/p/package.json".into(),
        object(vec![("main", "./main.js"), ("types", "./types.d.ts"), ("typings", "./typings.d.ts")]),
    );
    assert_eq!(dts_package_entry(&full, all()), Some("./typings.d.ts"));
    assert_eq!(dts_package_entry(&full, Extensions::javascript()), Some("./main.js"));
    assert_eq!(dts_package_entry(&full, Extensions(0)), None);
    let types_only = PackageJson::new(
        "/p/package.json".into(),
        "/p/package.json".into(),
        object(vec![("main", "./main.js"), ("types", "./types.d.ts")]),
    );
    assert_eq!(dts_package_entry(&types_only, Extensions::declaration()), Some("./types.d.ts"));
    let main_only =
        PackageJson::new("/p/package.json".into(), "/p/package.json".into(), object(vec![("main", "./main.js")]));
    assert_eq!(dts_package_entry(&main_only, all()), Some("./main.js"));
    let nothing = PackageJson::new("/p/package.json".into(), "/p/package.json".into(), object(vec![]));
    assert_eq!(dts_version_paths_specifier(&nothing, all()), "index");
    assert_eq!(dts_version_paths_specifier(&full, all()), "./typings.d.ts");
}

#[test]
fn file_candidates() {
    assert_eq!(
        dts_file_candidates("/p/foo.js", all()),
        strings(&[
            "/p/foo.ts", "/p/foo.tsx", "/p/foo.d.ts", "/p/foo.js", "/p/foo.jsx", "/p/foo.js.ts", "/p/foo.js.tsx",
            "/p/foo.js.d.ts", "/p/foo.js.js", "/p/foo.js.jsx",
        ])
    );
    assert_eq!(
        dts_file_candidates("/p/foo", Extensions::declaration()),
        strings(&["/p/foo.d.ts"])
    );
    assert_eq!(
        dts_file_candidates("/p/a.vue", Extensions::declaration()),
        strings(&["/p/a.d.vue.ts", "/p/a.vue.d.ts"])
    );
    assert_eq!(
        dts_file_candidates("/p/b.d.mts", Extensions::typescript()),
        strings(&["/p/b.mts", "/p/b.d.mts.ts", "/p/b.d.mts.tsx"])
    );
}

#[test]
fn version_path_candidates() {
    let paths = vec![
        ("lib/*".to_string(), vec!["ts4/*/*.d.ts".to_string(), "other/*".to_string()]),
        ("nothing".to_string(), vec!["x".to_string()]),
        ("*".to_string(), vec!["./all/*".to_string()]),
    ];
    assert_eq!(
        dts_version_path_candidates(&paths, "lib/a", "/p/pkg"),
        strings(&["/p/pkg/ts4/a/a.d.ts", "/p/pkg/other/a", "/p/pkg/all/lib/a"])
    );
    assert_eq!(dts_version_path_candidates(&paths, "nothing", "/p/pkg"), strings(&["/p/pkg/x", "/p/pkg/all/nothing"]));
    assert!(dts_version_path_candidates(&vec![], "a", "/p").is_empty());
}

#[test]
fn push_paths() {
    assert_eq!(push_path("/p/pkg", "index"), "/p/pkg/index");
    assert_eq!(push_path("/p/pkg/", "index"), "/p/pkg/index");
    assert_eq!(push_path("", "index"), "index");
    assert_eq!(push_path("/p/pkg", "/abs"), "/abs");
}


fn pkg_with(entries: Vec<(&str, JsonValue)>) -> PackageJson {
    let root = JsonValue::Object(JsonObject { entries: entries.into_iter().map(|(k, v)| (k.to_string(), v)).collect() });
    PackageJson::new("/p/pkg/package.json".into(), "/p/pkg/package.json".into(), root)
}

fn expect_file(action: &DirAction) -> String {
    match action {
        DirAction::ResolveAsFile(p) => p.clone(),
        other => panic!("expected a file lookup, got {other:?}"),
    }
}

fn expect_dir(action: &DirAction) -> String {
    match action {
        DirAction::IsDir(p) => p.clone(),
        other => panic!("expected a directory check, got {other:?}"),
    }
}

#[test]
fn directory_lookup_of_a_missing_directory() {
    let (mut lookup, action) = DtsDirectoryLookup::start("/p/pkg", all());
    assert_eq!(expect_dir(&action), "/p/pkg");
    assert!(matches!(lookup.on_event(DirEvent::Dir(false)), DirAction::Done(Ok(None))));
}

#[test]
fn directory_lookup_without_package_json_tries_index() {
    let (mut lookup, _) = DtsDirectoryLookup::start("/p/pkg", all());
    match lookup.on_event(DirEvent::Dir(true)) {
        DirAction::ReadPackageJson(p) => assert_eq!(p, "/p/pkg"),
        other => panic!("unexpected {other:?}"),
    }
    let action = lookup.on_event(DirEvent::PackageJson(Ok(None)));
    assert_eq!(expect_file(&action), "/p/pkg/index");
    match lookup.on_event(DirEvent::File(Some("/p/pkg/index.d.ts".to_string()))) {
        DirAction::Done(Ok(Some(p))) => assert_eq!(p, "/p/pkg/index.d.ts"),
        other => panic!("unexpected {other:?}"),
    }
}

#[test]
fn directory_lookup_follows_the_entry() {
    let (mut lookup, _) = DtsDirectoryLookup::start("/p/pkg", all());
    lookup.on_event(DirEvent::Dir(true));
    let pkg = pkg_with(vec![("types", JsonValue::String("./lib/main.d.ts".into()))]);
    let action = lookup.on_event(DirEvent::PackageJson(Ok(Some(pkg))));
    assert_eq!(expect_file(&action), "/p/pkg/lib/main.d.ts");
    let action = lookup.on_event(DirEvent::File(None));
    assert_eq!(expect_dir(&action), "/p/pkg/lib/main.d.ts");
    let action = lookup.on_event(DirEvent::Dir(true));
    assert_eq!(expect_file(&action), "/p/pkg/lib/main.d.ts/index");
    let action = lookup.on_event(DirEvent::File(None));
    assert_eq!(expect_file(&action), "/p/pkg/index");
    assert!(matches!(lookup.on_event(DirEvent::File(None)), DirAction::Done(Ok(None))));
}

#[test]
fn directory_lookup_tries_types_versions_first() {
    let (mut lookup, _) = DtsDirectoryLookup::start("/p/pkg", all());
    lookup.on_event(DirEvent::Dir(true));
    let versions = JsonValue::Object(JsonObject {
        entries: vec![(
            "*".to_string(),
            JsonValue::Object(JsonObject {
                entries: vec![("*".to_string(), JsonValue::Array(vec![JsonValue::String("ts4/*".into())]))],
            }),
        )],
    });
    let pkg = pkg_with(vec![("typesVersions", versions), ("types", JsonValue::String("main.d.ts".into()))]);
    let action = lookup.on_event(DirEvent::PackageJson(Ok(Some(pkg))));
    assert_eq!(expect_file(&action), "/p/pkg/ts4/main.d.ts");
    let action = lookup.on_event(DirEvent::File(None));
    assert_eq!(expect_dir(&action), "/p/pkg/ts4/main.d.ts");
    match lookup.on_event(DirEvent::Dir(true)) {
        DirAction::ResolveAsDirectory(p) => assert_eq!(p, "/p/pkg/ts4/main.d.ts"),
        other => panic!("unexpected {other:?}"),
    }
    let action = lookup.on_event(DirEvent::Directory(Ok(None)));
    assert_eq!(expect_file(&action), "/p/pkg/main.d.ts");
    let err = ResolveError::Recursion;
    let (mut failing, _) = DtsDirectoryLookup::start("/p/pkg", all());
    failing.on_event(DirEvent::Dir(true));
    assert!(matches!(failing.on_event(DirEvent::PackageJson(Err(err))), DirAction::Done(Err(ResolveError::Recursion))));
}

fn expect_is_dir(action: &ModulesAction) -> String {
    match action {
        ModulesAction::IsDir(p) => p.clone(),
        other => panic!("expected a directory check, got {other:?}"),
    }
}

fn expect_resolve_in(action: &ModulesAction) -> (Extensions, String, String) {
    match action {
        ModulesAction::ResolveIn { extensions, specifier, dir } => (*extensions, specifier.clone(), dir.clone()),
        other => panic!("expected a lookup, got {other:?}"),
    }
}

#[test]
fn node_modules_walk_two_passes() {
    let (mut walk, action) = DtsModulesWalk::start("/p/src", "@babel/core/sub", "@babel/core", "/sub", all());
    assert_eq!(expect_is_dir(&action), "/p/src/node_modules");
    let action = walk.on_event(ModulesEvent::Dir(false));
    assert_eq!(expect_is_dir(&action), "/p/node_modules");
    let action = walk.on_event(ModulesEvent::Dir(true));
    assert_eq!(
        expect_resolve_in(&action),
        (Extensions(0b101), "@babel/core/sub".to_string(), "/p/node_modules".to_string())
    );
    let action = walk.on_event(ModulesEvent::Resolved(Ok(None)));
    assert_eq!(expect_is_dir(&action), "/p/node_modules/@types");
    let action = walk.on_event(ModulesEvent::Dir(true));
    assert_eq!(
        expect_resolve_in(&action),
        (Extensions::declaration(), "babel__core/sub".to_string(), "/p/node_modules/@types".to_string())
    );
    let action = walk.on_event(ModulesEvent::Resolved(Ok(None)));
    assert_eq!(expect_is_dir(&action), "/node_modules");
    let action = walk.on_event(ModulesEvent::Dir(false));
    assert_eq!(expect_is_dir(&action), "/p/src/node_modules");
    let action = walk.on_event(ModulesEvent::Dir(false));
    assert_eq!(expect_is_dir(&action), "/p/node_modules");
    let action = walk.on_event(ModulesEvent::Dir(true));
    assert_eq!(
        expect_resolve_in(&action),
        (Extensions::javascript(), "@babel/core/sub".to_string(), "/p/node_modules".to_string())
    );
    match walk.on_event(ModulesEvent::Resolved(Ok(Some("/p/node_modules/@babel/core/sub.js".to_string())))) {
        ModulesAction::Done(Ok(Some(p))) => assert_eq!(p, "/p/node_modules/@babel/core/sub.js"),
        other => panic!("unexpected {other:?}"),
    }
}

#[test]
fn node_modules_walk_single_pass_and_errors() {
    let (mut js_only, action) = DtsModulesWalk::start("/p", "x", "x", "", Extensions::javascript());
    assert_eq!(expect_is_dir(&action), "/p/node_modules");
    let action = js_only.on_event(ModulesEvent::Dir(false));
    assert_eq!(expect_is_dir(&action), "/node_modules");
    assert!(matches!(js_only.on_event(ModulesEvent::Dir(false)), ModulesAction::Done(Ok(None))));

    let (mut types_only, _) = DtsModulesWalk::start("/", "x", "x", "", Extensions::typescript());
    let action = types_only.on_event(ModulesEvent::Dir(true));
    assert_eq!(expect_resolve_in(&action), (Extensions::typescript(), "x".to_string(), "/node_modules".to_string()));
    assert!(matches!(types_only.on_event(ModulesEvent::Resolved(Ok(None))), ModulesAction::Done(Ok(None))));

    let (mut failing, _) = DtsModulesWalk::start("/p", "x", "x", "", all());
    failing.on_event(ModulesEvent::Dir(true));
    assert!(matches!(
        failing.on_event(ModulesEvent::Resolved(Err(ResolveError::Recursion))),
        ModulesAction::Done(Err(ResolveError::Recursion))
    ));

    let (_, nothing) = DtsModulesWalk::start("/p", "x", "x", "", Extensions(0));
    assert!(matches!(nothing, ModulesAction::Done(Ok(None))));
}

#[test]
fn routes() {
    assert_eq!(dts_route("./a"), DtsRoute::Relative);
    assert_eq!(dts_route("/abs"), DtsRoute::Relative);
    assert_eq!(dts_route("#internal"), DtsRoute::PackageImports);
    assert_eq!(dts_route("node:fs"), DtsRoute::Scheme);
    assert_eq!(dts_route("lodash"), DtsRoute::Bare);
    assert_eq!(dts_route(""), DtsRoute::Bare);
}

fn pkg_at(dir: &str, entries: Vec<(&str, JsonValue)>) -> PackageJson {
    let root = JsonValue::Object(JsonObject { entries: entries.into_iter().map(|(k, v)| (k.to_string(), v)).collect() });
    PackageJson::new(format!("{dir}/package.json"), format!("{dir}/package.json"), root)
}

#[test]
fn package_lookup_through_exports() {
    let (mut lookup, action) = DtsPackageLookup::start("/p/node_modules", "pkg/sub", "pkg", "/sub", all());
    assert!(matches!(&action, PackageAction::IsDir(p) if p == "/p/node_modules/pkg"));
    let action = lookup.on_event(PackageEvent::Dir(true));
    assert!(matches!(&action, PackageAction::ReadPackageJson(p) if p == "/p/node_modules/pkg"));
    let pkg = pkg_at("/p/node_modules/pkg", vec![("exports", JsonValue::String("./index.js".into()))]);
    match lookup.on_event(PackageEvent::PackageJson(Ok(Some(pkg)))) {
        PackageAction::ResolveExports { dir, subpath } => {
            assert_eq!(dir, "/p/node_modules/pkg");
            assert_eq!(subpath, "./sub");
        }
        other => panic!("unexpected {other:?}"),
    }
    let exported = "/p/node_modules/pkg/dist/sub.js".to_string();
    let action = lookup.on_event(PackageEvent::Exported(Some(exported.clone())));
    assert!(matches!(&action, PackageAction::IsFile(p) if *p == exported));
    match lookup.on_event(PackageEvent::IsFile(false)) {
        PackageAction::ResolveAsFile(p, x) => {
            assert_eq!(p, exported);
            assert_eq!(x, all());
        }
        other => panic!("unexpected {other:?}"),
    }
    match lookup.on_event(PackageEvent::File(None)) {
        PackageAction::Done(Ok(Some(p))) => assert_eq!(p, exported),
        other => panic!("unexpected {other:?}"),
    }

    let (mut blocked, _) = DtsPackageLookup::start("/p/node_modules", "pkg", "pkg", "", all());
    blocked.on_event(PackageEvent::Dir(true));
    let pkg = pkg_at("/p/node_modules/pkg", vec![("exports", JsonValue::Null)]);
    match blocked.on_event(PackageEvent::PackageJson(Ok(Some(pkg)))) {
        PackageAction::ResolveExports { subpath, .. } => assert_eq!(subpath, "."),
        other => panic!("unexpected {other:?}"),
    }
    assert!(matches!(blocked.on_event(PackageEvent::Exported(None)), PackageAction::Done(Ok(None))));
}

#[test]
fn package_lookup_of_a_subpath() {
    let ts = Extensions::typescript().union(Extensions::declaration());
    let (mut lookup, _) = DtsPackageLookup::start("/p/node_modules", "pkg/sub", "pkg", "/sub", ts);
    lookup.on_event(PackageEvent::Dir(true));
    let versions = JsonValue::Object(JsonObject {
        entries: vec![(
            "*".to_string(),
            JsonValue::Object(JsonObject {
                entries: vec![("*".to_string(), JsonValue::Array(vec![JsonValue::String("types/*".into())]))],
            }),
        )],
    });
    let pkg = pkg_at("/p/node_modules/pkg", vec![("typesVersions", versions)]);
    match lookup.on_event(PackageEvent::PackageJson(Ok(Some(pkg)))) {
        PackageAction::ResolveAsFile(p, x) => {
            assert_eq!(p, "/p/node_modules/pkg/types/sub");
            assert_eq!(x, ts);
        }
        other => panic!("unexpected {other:?}"),
    }
    let action = lookup.on_event(PackageEvent::File(None));
    assert!(matches!(&action, PackageAction::IsDir(p) if p == "/p/node_modules/pkg/types/sub"));
    match lookup.on_event(PackageEvent::Dir(false)) {
        PackageAction::ResolveAsFile(p, _) => assert_eq!(p, "/p/node_modules/pkg/sub"),
        other => panic!("unexpected {other:?}"),
    }
    let action = lookup.on_event(PackageEvent::File(None));
    assert!(matches!(&action, PackageAction::IsDir(p) if p == "/p/node_modules/pkg/sub"));
    match lookup.on_event(PackageEvent::Dir(false)) {
        PackageAction::ResolveAsDirectory(p, _) => assert_eq!(p, "/p/node_modules/pkg"),
        other => panic!("unexpected {other:?}"),
    }
    assert!(matches!(lookup.on_event(PackageEvent::Directory(Ok(None))), PackageAction::Done(Ok(None))));

    let (mut missing, _) = DtsPackageLookup::start("/p/node_modules", "pkg", "pkg", "", ts);
    assert!(matches!(missing.on_event(PackageEvent::Dir(false)), PackageAction::Done(Ok(None))));
}

#[test]
fn file_probe_records_each_probe_and_stops_at_the_first_file() {
    let mut ctx = ResolveContext::default();
    ctx.init_file_dependencies();
    let (mut probe, mut action) = DtsFileProbe::start("/p/foo.js", all());
    let mut probed = Vec::new();
    let found = loop {
        action = match action {
            FileProbeAction::IsFile(p) => {
                let meta = if p == "/p/foo.d.ts" { Some(FileMetadata::new(true, false, false)) } else { None };
                probed.push(p);
                probe.on_event(&mut ctx, meta)
            }
            FileProbeAction::Done(found) => break found,
        };
    };
    assert_eq!(found, Some("/p/foo.d.ts".to_string()));
    assert_eq!(probed, strings(&["/p/foo.ts", "/p/foo.tsx", "/p/foo.d.ts"]));
    assert_eq!(ctx.file_dependencies, Some(strings(&["/p/foo.d.ts"])));
    assert_eq!(ctx.missing_dependencies, Some(strings(&["/p/foo.ts", "/p/foo.tsx"])));
}

#[test]
fn file_probe_without_a_file_probes_every_candidate() {
    let mut ctx = ResolveContext::default();
    ctx.init_file_dependencies();
    let (mut probe, mut action) = DtsFileProbe::start("/p/foo", Extensions::declaration());
    let found = loop {
        action = match action {
            FileProbeAction::IsFile(_) => probe.on_event(&mut ctx, None),
            FileProbeAction::Done(found) => break found,
        };
    };
    assert_eq!(found, None);
    assert_eq!(ctx.file_dependencies, Some(Vec::new()));
    assert_eq!(ctx.missing_dependencies, Some(strings(&["/p/foo.d.ts"])));
}

fn expect_dts_lookup(action: &DtsAction) -> String {
    match action {
        DtsAction::TsconfigPaths { specifier, .. } => format!("tsconfig {specifier}"),
        DtsAction::Relative { candidate } => format!("relative {candidate}"),
        DtsAction::PackageImports { dir, specifier } => format!("imports {dir} {specifier}"),
        DtsAction::PackageSelf { dir, specifier } => format!("self {dir} {specifier}"),
        DtsAction::NodeModules { dir, specifier } => format!("node_modules {dir} {specifier}"),
        DtsAction::Finalize(p) => format!("finalize {p}"),
        DtsAction::Done(_) => "done".to_string(),
    }
}

#[test]
fn dts_resolution_of_a_bare_specifier() {
    let mut ctx = ResolveContext::default();
    let (mut r, a) = DtsResolution::start("/p/src/index.ts", "pkg", Some("?q"), None, &mut ctx);
    assert_eq!(ctx.query.as_deref(), Some("?q"));
    assert_eq!(expect_dts_lookup(&a), "tsconfig pkg");
    let a = r.on_event(DtsEvent::Found(Ok(None)));
    assert_eq!(expect_dts_lookup(&a), "self /p/src pkg");
    let a = r.on_event(DtsEvent::Found(Ok(None)));
    assert_eq!(expect_dts_lookup(&a), "node_modules /p/src pkg");
    let a = r.on_event(DtsEvent::Found(Ok(Some("/p/node_modules/pkg/index.d.ts".to_string()))));
    assert_eq!(expect_dts_lookup(&a), "finalize /p/node_modules/pkg/index.d.ts");
    let done = Resolution::new("/p/node_modules/pkg/index.d.ts".to_string(), None, None, None, None);
    match r.on_event(DtsEvent::Finalized(Ok(done))) {
        DtsAction::Done(Ok(res)) => assert_eq!(res.path(), "/p/node_modules/pkg/index.d.ts"),
        _ => panic!("expected the resolution"),
    }
}

#[test]
fn dts_resolution_routes() {
    let mut ctx = ResolveContext::default();
    let (_, a) = DtsResolution::start("/p/src/index.ts", "../lib/./x", None, None, &mut ctx);
    assert_eq!(expect_dts_lookup(&a), "relative /p/lib/x");
    let (mut r, a) = DtsResolution::start("/p/src/index.ts", "#internal", None, None, &mut ctx);
    assert_eq!(expect_dts_lookup(&a), "tsconfig #internal");
    let a = r.on_event(DtsEvent::Found(Ok(None)));
    assert_eq!(expect_dts_lookup(&a), "imports /p/src #internal");
    assert!(matches!(r.on_event(DtsEvent::Found(Ok(None))), DtsAction::Done(Err(ResolveError::NotFound(s))) if s == "#internal"));
    let (mut r, _) = DtsResolution::start("/p/src/index.ts", "node:fs", None, None, &mut ctx);
    assert!(matches!(r.on_event(DtsEvent::Found(Ok(None))), DtsAction::Done(Err(ResolveError::NotFound(s))) if s == "node:fs"));
    let (mut r, _) = DtsResolution::start("/p/src/index.ts", "pkg", None, None, &mut ctx);
    let failure = ResolveError::Recursion;
    assert!(matches!(r.on_event(DtsEvent::Found(Err(failure))), DtsAction::Done(Err(ResolveError::Recursion))));
}

#[test]
fn dts_finalize_takes_query_and_fragment() {
    let mut ctx = ResolveContext::default();
    ctx.query = Some("?a".to_string());
    ctx.fragment = Some("#b".to_string());
    let r = dts_finalize("/p/x.d.mts", "/real/x.d.mts".to_string(), None, &mut ctx);
    assert_eq!(r.path(), "/real/x.d.mts");
    assert_eq!(r.query(), Some("?a"));
    assert_eq!(r.fragment(), Some("#b"));
    assert_eq!(r.module_type(), Some(ModuleType::Module));
    assert_eq!(ctx.query, None);
    assert_eq!(ctx.fragment, None);
}
