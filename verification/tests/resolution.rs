use std::sync::Arc;

use rspack_resolver::binding::{Builtin, ModuleType as BindingModuleType, ResolveResult};
use rspack_resolver::file_system::FileSystemOs;
use rspack_resolver::json::JsonValue;
use rspack_resolver::node_path::NodePath;
use rspack_resolver::package_json::PackageJson;
use rspack_resolver::resolution::{ModuleType, Resolution};
use rspack_resolver::{IoErrorKind, ResolveError};

#[test]
fn resolution_parts() {
    let pkg = Arc::new(PackageJson::new("/p/package.json".into(), "/p/package.json".into(), JsonValue::Null));
    let r = Resolution::new(
        "/p/index.js".into(),
        Some("?q=1".into()),
        Some("#frag".into()),
        Some(pkg),
        Some(ModuleType::Module),
    );
    assert_eq!(r.path(), "/p/index.js");
    assert_eq!(r.query(), Some("?q=1"));
    assert_eq!(r.fragment(), Some("#frag"));
    assert_eq!(r.full_path(), "/p/index.js?q=1#frag");
    assert_eq!(r.module_type(), Some(ModuleType::Module));
    assert_eq!(r.package_json().unwrap().path(), "/p/package.json");

    let result = ResolveResult::from_resolution(&r);
    assert_eq!(result.path.as_deref(), Some("/p/index.js?q=1#frag"));
    assert_eq!(result.module_type, Some(BindingModuleType::Module));
    assert_eq!(result.package_json_path.as_deref(), Some("/p/package.json"));
    assert!(result.error.is_none());
    assert_eq!(r.into_path_buf(), "/p/index.js");

    let plain = Resolution::new("/p/a.json".into(), None, None, None, None);
    assert_eq!(plain.full_path(), "/p/a.json");
    let result = ResolveResult::from_resolution(&plain);
    assert_eq!(result.module_type, None);
    assert_eq!(result.package_json_path, None);
}

#[test]
fn binding_errors() {
    let err = ResolveError::Builtin { resolved: "node:fs".into(), is_runtime_module: false };
    let result = ResolveResult::from_error(&err, "Builtin module node:fs".into());
    assert_eq!(result.builtin, Some(Builtin { resolved: "node:fs".into(), is_runtime_module: false }));
    assert_eq!(result.error.as_deref(), Some("Builtin module node:fs"));
    assert!(result.path.is_none());
    let result = ResolveResult::from_error(&ResolveError::NotFound("x".into()), "not found".into());
    assert_eq!(result.builtin, None);
    assert_eq!(BindingModuleType::from(ModuleType::Addon), BindingModuleType::Addon);
    assert_eq!(BindingModuleType::from(ModuleType::Json), BindingModuleType::Json);
}

#[test]
fn node_path_entries() {
    assert_eq!(NodePath::parse(None), Vec::<String>::new());
    assert_eq!(
        NodePath::parse(Some("/usr/lib/node:relative:/opt/node::")),
        vec!["/usr/lib/node".to_string(), "/opt/node".to_string()]
    );
    assert_eq!(NodePath::parse(Some("")), Vec::<String>::new());
}

#[test]
fn validate_string() {
    assert_eq!(FileSystemOs::validate_string(b"hello".to_vec()).unwrap(), "hello");
    assert_eq!(FileSystemOs::validate_string("héllo".as_bytes().to_vec()).unwrap(), "héllo");
    let error = FileSystemOs::validate_string(vec![0xff, 0xfe]).unwrap_err();
    assert_eq!(error.kind, IoErrorKind::InvalidData);
    assert_eq!(error.message, "stream did not contain valid UTF-8");
}

#[test]
fn json_error_carries_message_line_and_column() {
    let error = serde_json::from_str::<serde_json::Value>("{\n  \"a\": 1,\n    oops").unwrap_err();
    match ResolveError::from_serde_json_error("/p/package.json".to_string(), &error) {
        ResolveError::Json(e) => {
            assert_eq!(e.path, "/p/package.json");
            assert_eq!((e.line, e.column), (error.line(), error.column()));
            assert_ne!(e.line, e.column);
            assert_eq!(e.message, error.to_string());
        }
        other => panic!("expected a JSON error, got {other:?}"),
    }
}
