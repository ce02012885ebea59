use std::hash::{Hash, Hasher};

use rspack_resolver::package_json::browser::hash_alias_fields;
use rspack_resolver::json::{JsonObject, JsonValue};
use rspack_resolver::package_json::{
    check_if_empty, replace_bom_with_whitespace, ImportsExportsKind, PackageJson, PackageType,
    SideEffects,
};
use rspack_resolver::ResolveError;

fn string(s: &str) -> JsonValue {
    JsonValue::String(s.to_string())
}

fn object(entries: Vec<(&str, JsonValue)>) -> JsonValue {
    JsonValue::Object(JsonObject {
        entries: entries.into_iter().map(|(k, v)| (k.to_string(), v)).collect(),
    })
}

fn package(root: JsonValue) -> PackageJson {
    PackageJson::new(
        "/pkg/package.json".to_string(),
        "/real/pkg/package.json".to_string(),
        root,
    )
}

fn fields(paths: &[&[&str]]) -> Vec<Vec<String>> {
    paths.iter().map(|p| p.iter().map(|s| s.to_string()).collect()).collect()
}

#[test]
fn package_type_from_str() {
    assert_eq!(PackageType::from_str("commonjs"), Some(PackageType::CommonJs));
    assert_eq!(PackageType::from_str("module"), Some(PackageType::Module));
    assert_eq!(PackageType::from_str("Module"), None);
}

#[test]
fn top_level_fields() {
    let pkg = package(object(vec![
        ("name", string("foo")),
        ("version", string("1.0.0")),
        ("types", string("./index.d.ts")),
        ("type", string("module")),
        ("typings", JsonValue::Bool(true)),
    ]));
    assert_eq!(pkg.path(), "/pkg/package.json");
    assert_eq!(pkg.realpath(), "/real/pkg/package.json");
    assert_eq!(pkg.directory(), "/real/pkg");
    assert_eq!(pkg.name(), Some("foo"));
    assert_eq!(pkg.version(), Some("1.0.0"));
    assert_eq!(pkg.types(), Some("./index.d.ts"));
    assert_eq!(pkg.typings(), None);
    assert_eq!(pkg.package_type(), Some(PackageType::Module));
    let not_object = package(JsonValue::Array(vec![]));
    assert_eq!(not_object.name(), None);
    assert_eq!(not_object.package_type(), None);
}

#[test]
fn side_effects_forms() {
    let pkg = package(object(vec![("sideEffects", JsonValue::Bool(false))]));
    assert_eq!(pkg.side_effects(), Some(SideEffects::Bool(false)));
    let pkg = package(object(vec![("sideEffects", string("*.css"))]));
    assert_eq!(pkg.side_effects(), Some(SideEffects::String("*.css")));
    let pkg = package(object(vec![(
        "sideEffects",
        JsonValue::Array(vec![string("a.js"), JsonValue::Null, string("b.css")]),
    )]));
    assert_eq!(pkg.side_effects(), Some(SideEffects::Array(vec!["a.js", "b.css"])));
    let pkg = package(object(vec![("sideEffects", JsonValue::Null)]));
    assert_eq!(pkg.side_effects(), None);
}

#[test]
fn exports_views() {
    let pkg = package(object(vec![
        ("exports", object(vec![(".", string("./index.js")), ("./a", JsonValue::Array(vec![string("./a.js")]))])),
        ("nested", object(vec![("exports", string("./nested.js"))])),
    ]));
    let exports = pkg.exports().unwrap();
    assert_eq!(exports.kind(), ImportsExportsKind::Object);
    let map = exports.as_map().unwrap();
    assert_eq!(map.keys(), vec![".", "./a"]);
    assert_eq!(map.get(".").unwrap().as_string(), Some("./index.js"));
    let array = map.get("./a").unwrap().as_array().unwrap();
    assert_eq!(array.len(), 1);
    assert!(!array.is_empty());
    assert_eq!(array.iter()[0].as_string(), Some("./a.js"));
    assert_eq!(map.iter().len(), 2);
    assert!(map.get("./missing").is_none());

    let found = pkg.exports_fields(&fields(&[&["exports"], &["nested", "exports"], &["missing"]]));
    assert_eq!(found.len(), 2);
    assert_eq!(found[1].as_string(), Some("./nested.js"));
    assert_eq!(found[1].kind(), ImportsExportsKind::String);
}

#[test]
fn main_and_imports_fields() {
    let pkg = package(object(vec![
        ("main", string("./main.js")),
        ("module", JsonValue::Number("1".to_string())),
        ("browser", string("./browser.js")),
        ("imports", object(vec![("#a", string("./a.js"))])),
    ]));
    let main_fields: Vec<String> = vec!["browser".into(), "module".into(), "main".into()];
    assert_eq!(pkg.main_fields(&main_fields), vec!["./browser.js", "./main.js"]);
    let imports = pkg.imports_fields(&fields(&[&["imports"], &["main"]]));
    assert_eq!(imports.len(), 1);
    assert_eq!(imports[0].get("#a").unwrap().as_string(), Some("./a.js"));
}

#[test]
fn browser_field_forward_lookup() {
    let pkg = package(object(vec![(
        "browser",
        object(vec![
            ("module-a", string("./shims/a.js")),
            ("module-b", JsonValue::Bool(false)),
            ("module-c", JsonValue::Bool(true)),
        ]),
    )]));
    let alias_fields = fields(&[&["browser"]]);
    assert_eq!(
        pkg.resolve_browser_field("/pkg/x.js", Some("module-a"), &alias_fields),
        Ok(Some("./shims/a.js"))
    );
    assert_eq!(
        pkg.resolve_browser_field("/pkg/x.js", Some("module-b"), &alias_fields),
        Err(ResolveError::Ignored("/pkg/x.js".to_string()))
    );
    assert_eq!(pkg.resolve_browser_field("/pkg/x.js", Some("module-c"), &alias_fields), Ok(None));
    assert_eq!(pkg.resolve_browser_field("/pkg/x.js", Some("other"), &alias_fields), Ok(None));
}

#[test]
fn browser_field_reverse_lookup() {
    let pkg = package(object(vec![(
        "browser",
        object(vec![
            ("./lib/server.js", string("./lib/client.js")),
            ("./lib/node-only.js", JsonValue::Bool(false)),
            ("./lib/../lib/other.js", string("./lib/other-browser.js")),
        ]),
    )]));
    let alias_fields = fields(&[&["browser"]]);
    assert_eq!(
        pkg.resolve_browser_field("/pkg/lib/server.js", None, &alias_fields),
        Ok(Some("./lib/client.js"))
    );
    assert_eq!(
        pkg.resolve_browser_field("/pkg/lib/node-only.js", None, &alias_fields),
        Err(ResolveError::Ignored("/pkg/lib/node-only.js".to_string()))
    );
    assert_eq!(
        pkg.resolve_browser_field("/pkg/lib/other.js", None, &alias_fields),
        Ok(Some("./lib/other-browser.js"))
    );
    assert_eq!(pkg.resolve_browser_field("/pkg/lib/unknown.js", None, &alias_fields), Ok(None));
    assert_eq!(pkg.resolve_browser_field("/elsewhere/lib/server.js", None, &alias_fields), Ok(None));
}

#[test]
fn empty_and_bom() {
    assert!(check_if_empty(b"{}", "/p/package.json").is_ok());
    let error = check_if_empty(b" \n\t\r ", "/p/package.json").unwrap_err();
    assert_eq!(error.path, "/p/package.json");
    assert_eq!(error.message, "File is empty");
    assert_eq!((error.line, error.column), (0, 0));
    assert!(check_if_empty(b"", "/p").is_err());

    let mut bytes = vec![0xEF, 0xBB, 0xBF, b'{', b'}'];
    replace_bom_with_whitespace(&mut bytes);
    assert_eq!(bytes, b"   {}".to_vec());
    let mut bytes = b"{}".to_vec();
    replace_bom_with_whitespace(&mut bytes);
    assert_eq!(bytes, b"{}".to_vec());
}

#[test]
fn browser_index_agrees_with_scan() {
    let pkg = package(object(vec![
        (
            "browser",
            object(vec![
                ("./lib/server.js", string("./lib/client.js")),
                (".", string("./browser-root.js")),
                ("./lib/node-only.js", JsonValue::Bool(false)),
            ]),
        ),
        ("module-browser", object(vec![("./lib/server.js", string("./lib/second.js"))])),
    ]));
    let alias_fields = fields(&[&["browser"], &["module-browser"]]);
    let index = pkg.build_browser_index(&alias_fields).unwrap();
    for path in ["/pkg/lib/server.js", "/pkg/lib/node-only.js", "/pkg", "/pkg/other.js", "/x"] {
        assert_eq!(
            pkg.browser_reverse_lookup(&index, path, &alias_fields),
            pkg.resolve_browser_field(path, None, &alias_fields),
            "{path}"
        );
    }
    assert_eq!(
        pkg.browser_reverse_lookup(&index, "/pkg/lib/server.js", &alias_fields),
        Ok(Some("./lib/client.js"))
    );
    assert_eq!(pkg.browser_reverse_lookup(&index, "/pkg", &alias_fields), Ok(Some("./browser-root.js")));
    assert!(pkg.build_browser_index(&fields(&[&["missing"]])).is_none());
}

#[test]
fn alias_fields_hash() {
    let fields = vec![vec!["browser".to_string()], vec!["exports".to_string(), "browser".to_string()]];
    let mut hasher = rustc_hash::FxHasher::default();
    fields.len().hash(&mut hasher);
    for field_path in &fields {
        field_path.len().hash(&mut hasher);
        for segment in field_path {
            segment.hash(&mut hasher);
        }
    }
    assert_eq!(hash_alias_fields(&fields), hasher.finish());
    assert_eq!(hash_alias_fields(&fields), hash_alias_fields(&fields.clone()));
    assert_ne!(hash_alias_fields(&fields), hash_alias_fields(&[vec!["browser".to_string()]]));
}
