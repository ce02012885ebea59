use rspack_resolver::json::{JsonObject, JsonValue};
use rspack_resolver::package_map::node_options;
use rspack_resolver::package_map::url::resolve_url_from;
use rspack_resolver::package_map::{
    package_map_path_from_node_options, record_package_map_load, FindPackageIdError, PackageMap, PackageMapData,
};
use rspack_resolver::context::ResolveContext;
use rspack_resolver::error::JSONError;
use rspack_resolver::ResolveError;

fn string(s: &str) -> JsonValue {
    JsonValue::String(s.to_string())
}

fn object(entries: Vec<(&str, JsonValue)>) -> JsonValue {
    JsonValue::Object(JsonObject {
        entries: entries.into_iter().map(|(k, v)| (k.to_string(), v)).collect(),
    })
}

fn entry(url: &str, dependencies: Vec<(&str, &str)>) -> JsonValue {
    let mut fields = vec![("url", string(url))];
    if !dependencies.is_empty() {
        fields.push((
            "dependencies",
            object(dependencies.into_iter().map(|(k, v)| (k, string(v))).collect()),
        ));
    }
    object(fields)
}

fn build(path: &str, root: &JsonValue) -> Result<PackageMap, ResolveError> {
    let data = PackageMapData::from_value(path, root).unwrap();
    PackageMap::new(path.to_string(), path, data)
}

fn sample_map() -> PackageMap {
    let root = object(vec![(
        "packages",
        object(vec![
            ("app", entry("./app", vec![("lib", "lib"), ("gone", "missing")])),
            ("lib", entry("file:///node_modules/lib", vec![])),
            ("nested", entry("./app/nested", vec![])),
        ]),
    )]);
    build("/root/.package-map.json", &root).unwrap()
}

#[test]
fn absolute_path_does_not_require_cwd() {
    let path = "/package-map.json";

    assert_eq!(
        node_options::package_map_path_from_node_options(&format!(
            r#"--experimental-package-map="{path}""#
        )),
        Some(String::from(path)),
    );
}

#[test]
fn node_options_forms() {
    assert_eq!(
        node_options::package_map_path_from_node_options("--experimental-package-map ./a.json"),
        Some("./a.json".to_string())
    );
    assert_eq!(
        node_options::package_map_path_from_node_options(
            "--experimental-package-map=a.json --experimental-package-map=b.json"
        ),
        Some("b.json".to_string())
    );
    assert_eq!(
        node_options::package_map_path_from_node_options(r#"--experimental-package-map="a \"b\" c.json""#),
        Some(r#"a "b" c.json"#.to_string())
    );
    assert_eq!(node_options::package_map_path_from_node_options(r#"--experimental-package-map="a.json"#), None);
    assert_eq!(node_options::package_map_path_from_node_options("--experimental-package-map --inspect"), None);
    assert_eq!(node_options::package_map_path_from_node_options("--experimental-package-map"), None);
    assert_eq!(node_options::package_map_path_from_node_options("--experimental-package-map="), None);
    assert_eq!(node_options::package_map_path_from_node_options("--inspect --max-old-space-size=4096"), None);
}

#[test]
fn parse_node_options_tokenizes() {
    assert_eq!(
        node_options::parse_node_options(r#"a  "b c" d\e "f\"g""#),
        Some(vec!["a".to_string(), "b c".to_string(), r"d\e".to_string(), r#"f"g"#.to_string()])
    );
    assert_eq!(node_options::parse_node_options(r#""a\"#), None);
    assert_eq!(node_options::parse_node_options(""), Some(vec![]));
}

#[test]
fn relative_path_is_taken_from_cwd() {
    assert_eq!(
        package_map_path_from_node_options("--experimental-package-map=maps/../map.json", "/work"),
        Some("/work/map.json".to_string())
    );
    assert_eq!(
        package_map_path_from_node_options("--experimental-package-map=/a/./b/../map.json", "/work"),
        Some("/a/map.json".to_string())
    );
    assert_eq!(package_map_path_from_node_options("--inspect", "/work"), None);
}

#[test]
fn resolves_entry_urls() {
    let ok = |url: &str| resolve_url_from("/root/map.json", url);
    assert_eq!(ok("./a%20b"), Ok("/root/a b".to_string()));
    assert_eq!(ok("../x/./y"), Ok("/x/y".to_string()));
    assert_eq!(ok("file:///a/../b"), Ok("/b".to_string()));
    assert_eq!(ok(" \t./a\\b?x#y "), Ok("/root/a/b".to_string()));
    assert_eq!(ok("FILE:/abs"), Ok("/abs".to_string()));
    assert_eq!(ok("file:rel"), Ok("/root/rel".to_string()));
    assert_eq!(ok(""), Ok("/root".to_string()));
    assert_eq!(ok("file://host/b"), Err(r#"an invalid file URL "file://host/b""#.to_string()));
    assert_eq!(ok("//server/x"), Err(r#"an invalid file URL "//server/x""#.to_string()));
    assert_eq!(
        ok("https://example.com"),
        Err(r#"an unsupported URL scheme in "https://example.com"; only file URLs and relative URLs are supported"#.to_string())
    );
    assert_eq!(ok("./%ff"), Err(r#"an invalid file URL "./%ff""#.to_string()));
    assert_eq!(ok("%zz"), Err(r#"an invalid file URL "%zz""#.to_string()));
    assert_eq!(ok("a%2Fb"), Err(r#"an invalid file URL "a%2Fb""#.to_string()));
    assert_eq!(
        resolve_url_from("/", "./a"),
        Err("an invalid configuration file path".to_string())
    );
}

#[test]
fn invalid_entries_make_the_map_invalid() {
    let root = object(vec![(
        "packages",
        object(vec![("ok", entry("./ok", vec![])), ("web", entry("https://example.com/web", vec![]))]),
    )]);
    match build("/m/map.json", &root) {
        Err(ResolveError::PackageMapInvalid { package_map_path, reason }) => {
            assert_eq!(package_map_path, "/m/map.json");
            assert_eq!(
                reason,
                r#"package "web" has an unsupported URL scheme in "https://example.com/web"; only file URLs and relative URLs are supported"#
            );
        }
        _ => panic!("expected an invalid package map"),
    }
    let root = object(vec![("packages", object(vec![("a", entry("", vec![]))]))]);
    match build("/m/map.json", &root) {
        Err(ResolveError::PackageMapInvalid { reason, .. }) => {
            assert_eq!(reason, r#"package "a" has an empty "url" field"#);
        }
        _ => panic!("expected an invalid package map"),
    }
}

#[test]
fn finds_the_owning_package() {
    let map = sample_map();
    assert_eq!(map.find_package_id("/root/app"), Ok("app"));
    assert_eq!(map.find_package_id("/root/app/src/deep"), Ok("app"));
    assert_eq!(map.find_package_id("/root/app/nested/x"), Ok("nested"));
    assert_eq!(map.find_package_id("/node_modules/lib/index.js"), Ok("lib"));
    assert_eq!(map.find_package_id("/root/other/../app/src"), Ok("app"));
    assert_eq!(map.find_package_id("/root"), Err(FindPackageIdError::ExternalFile));
    assert_eq!(map.find_package_id("relative/path"), Err(FindPackageIdError::ExternalFile));
}

#[test]
fn shared_locations_are_ambiguous() {
    let root = object(vec![(
        "packages",
        object(vec![("a", entry("./pkg", vec![])), ("b", entry("pkg/", vec![]))]),
    )]);
    let map = build("/m/map.json", &root).unwrap();
    assert_eq!(map.find_package_id("/m/pkg/file.js"), Err(FindPackageIdError::AmbiguousResolution));
    match map.importer_package_id("x", "/m/pkg") {
        Err(ResolveError::PackageMapAmbiguousResolution { specifier, parent_path, package_map_path }) => {
            assert_eq!(specifier, "x");
            assert_eq!(parent_path, "/m/pkg");
            assert_eq!(package_map_path, "/m/map.json");
        }
        other => panic!("{other:?}"),
    }
    match map.importer_package_id("x", "/elsewhere") {
        Err(ResolveError::PackageMapExternalFile { parent_path, .. }) => {
            assert_eq!(parent_path, "/elsewhere");
        }
        other => panic!("{other:?}"),
    }
}

#[test]
fn follows_one_dependency_edge() {
    let map = sample_map();
    assert_eq!(map.importer_package_id("lib", "/root/app/src"), Ok("app"));
    assert_eq!(map.dependency_path("lib/x", "lib", "app"), Ok("/node_modules/lib"));
    assert_eq!(
        map.dependency_path("react", "react", "app"),
        Err(ResolveError::NotFound("react".to_string()))
    );
    assert_eq!(
        map.dependency_path("gone", "gone", "app"),
        Err(ResolveError::NotFound("gone".to_string()))
    );
}

#[test]
fn rejects_invalid_shapes() {
    let cases = vec![
        object(vec![]),
        object(vec![("packages", JsonValue::Array(vec![]))]),
        object(vec![("packages", object(vec![("a", object(vec![]))]))]),
        object(vec![("packages", object(vec![("a", object(vec![("url", JsonValue::Null)]))]))]),
        object(vec![(
            "packages",
            object(vec![("a", object(vec![("url", string("./a")), ("dependencies", string("b"))]))]),
        )]),
        object(vec![(
            "packages",
            object(vec![(
                "a",
                object(vec![("url", string("./a")), ("dependencies", object(vec![("b", JsonValue::Bool(true))]))]),
            )]),
        )]),
    ];
    for root in cases {
        let error = PackageMapData::from_value("/m.json", &root).err().unwrap();
        assert_eq!(error.path, "/m.json");
        assert_eq!(
            error.message,
            "package map must contain package entries with string URLs and dependencies"
        );
        assert_eq!((error.line, error.column), (0, 0));
    }
}

#[test]
fn last_entry_of_an_id_counts() {
    let root = object(vec![(
        "packages",
        object(vec![("a", entry("./one", vec![])), ("b", entry("./b", vec![])), ("a", entry("./two", vec![]))]),
    )]);
    let data = PackageMapData::from_value("/m/map.json", &root).unwrap();
    assert_eq!(data.packages.iter().map(|p| p.id.as_str()).collect::<Vec<_>>(), vec!["a", "b"]);
    let map = build("/m/map.json", &root).unwrap();
    assert_eq!(map.package("a").unwrap().path(), "/m/two");
    assert_eq!(map.find_package_id("/m/one"), Err(FindPackageIdError::ExternalFile));
}

#[test]
fn loading_the_package_map_records_its_dependency() {
    let mut ctx = ResolveContext::default();
    ctx.init_file_dependencies();
    record_package_map_load(&mut ctx, "/p/package-map.json", None);
    let invalid = ResolveError::PackageMapInvalid { package_map_path: "/p/other.json".into(), reason: "x".into() };
    record_package_map_load(&mut ctx, "/p/package-map.json", Some(&invalid));
    let json = ResolveError::Json(JSONError { path: "/p/bad.json".into(), message: "m".into(), line: 1, column: 2 });
    record_package_map_load(&mut ctx, "/p/package-map.json", Some(&json));
    record_package_map_load(&mut ctx, "/p/package-map.json", Some(&ResolveError::NotFound("x".into())));
    assert_eq!(
        ctx.file_dependencies,
        Some(vec!["/p/package-map.json".to_string(), "/p/other.json".to_string(), "/p/bad.json".to_string()])
    );
    assert_eq!(ctx.missing_dependencies, Some(vec!["/p/package-map.json".to_string()]));
}
