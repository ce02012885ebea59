use std::path::Path;

use rspack_resolver::path::{
    components, file_name, is_absolute, is_normalized, normalize_with, parent, Component, PathUtil,
};

#[test]
fn is_invalid_exports_target() {
    let test_cases = [
        "../a.js",
        "../",
        "./a/b/../../../c.js",
        "./a/b/../../../",
        "./../../c.js",
        "./../../",
        "./a/../b/../../c.js",
        "./a/../b/../../",
        "./././../",
    ];

    for case in test_cases {
        assert!(case.is_invalid_exports_target(), "{case}");
    }

    assert!(!"C:".is_invalid_exports_target());
    assert!(!"/".is_invalid_exports_target());
}

#[test]
fn normalize() {
    assert_eq!(Path::new(&"/foo/.././foo/".normalize()), Path::new("/foo"));
    assert_eq!(Path::new(&"C://".normalize()), Path::new("C://"));
    assert_eq!(Path::new(&"C:".normalize()), Path::new("C:"));
    assert_eq!(Path::new(&r"\\server\share".normalize()), Path::new(r"\\server\share"));
}

#[test]
fn normalize_relative() {
    assert_eq!(Path::new(&"foo/../../foo/".normalize_relative()), Path::new("../foo"));
    assert_eq!(Path::new(&"foo/.././foo/".normalize_relative()), Path::new("foo"));
    assert_eq!(Path::new(&"foo../../..".normalize_relative()), Path::new(".."));
    assert_eq!(Path::new(&"jest-runner-../../".normalize_relative()), Path::new(""));
}

#[test]
fn components_follow_std() {
    let cases = ["/a//b/./c/", "./a/../b", ".", "..", "a/.", "", "/", "//x", "./.", "a/./b/."];
    for case in cases {
        let ours = components(case);
        let std_components: Vec<Component> = Path::new(case)
            .components()
            .map(|c| match c {
                std::path::Component::RootDir => Component::RootDir,
                std::path::Component::CurDir => Component::CurDir,
                std::path::Component::ParentDir => Component::ParentDir,
                std::path::Component::Normal(n) => Component::Normal(n.to_str().unwrap().to_string()),
                std::path::Component::Prefix(_) => unreachable!(),
            })
            .collect();
        assert_eq!(ours, std_components, "{case}");
    }
}

#[test]
fn normalize_exact_text() {
    assert_eq!("/foo/.././foo/".normalize(), "/foo");
    assert_eq!("a/b/../../..".normalize(), "");
    assert_eq!("/..".normalize(), "/");
    assert_eq!("/..".normalize_relative(), "/..");
    assert_eq!("../..".normalize_relative(), "");
    assert_eq!("../../foo".normalize_relative(), "foo");
    assert_eq!("a/../../b/..".normalize_relative(), "..");
    assert_eq!("./a/./b/".normalize(), "a/b");
}

#[test]
fn normalize_is_idempotent_on_examples() {
    for case in ["/a/../b/./c//", "../../x/y/..", "./.", "a/b/c/../../.."] {
        let once = case.normalize();
        assert_eq!(once.normalize(), once);
        assert!(is_normalized(&once));
        let rel = case.normalize_relative();
        assert!(is_normalized(&rel));
    }
}

#[test]
fn normalize_with_joins_relative_subpaths() {
    assert_eq!(normalize_with("/foo/bar", "../baz/./x"), "/foo/baz/x");
    assert_eq!(normalize_with("/foo", "/abs/./p"), "/abs/./p");
    assert_eq!(normalize_with("/foo", ""), "");
    assert_eq!(normalize_with("/", "../a"), "/a");
    assert_eq!(normalize_with("..", "../a"), "a");
    assert_eq!("/foo/./bar/".normalize_with("baz"), "/foo/bar/baz");
}

#[test]
fn parent_file_name_and_absolute() {
    assert_eq!(parent("/foo/bar"), Some("/foo".to_string()));
    assert_eq!(parent("/foo"), Some("/".to_string()));
    assert_eq!(parent("/"), None);
    assert_eq!(parent(""), None);
    assert_eq!(parent("foo"), Some("".to_string()));
    assert_eq!(file_name("/a/package.json"), Some("package.json".to_string()));
    assert_eq!(file_name("/a/.."), None);
    assert_eq!(file_name("/"), None);
    assert!(is_absolute("/x"));
    assert!(!is_absolute("x/y"));
    assert!("./node_modules/x".is_invalid_exports_target());
    assert!("./NODE_MODULES/x".is_invalid_exports_target());
    assert!(!"./src/index.js".is_invalid_exports_target());
    assert!("./a//b.js".is_invalid_exports_target());
    assert!("./a/./b.js".is_invalid_exports_target());
    assert!("./a/%2e%2e/b.js".is_invalid_exports_target());
    assert!("./a/%2E/b.js".is_invalid_exports_target());
    assert!("./a\\..\\b.js".is_invalid_exports_target());
    assert!("./%6Eode_%4dodules/x".is_invalid_exports_target());
    assert!(!"./dist/".is_invalid_exports_target());
    assert!(!"./a/%2e%2ex/b.js".is_invalid_exports_target());
}

#[test]
fn normalize_with_agrees_with_normalizing_the_pushed_path() {
    for (base, sub) in [("/foo", "bar/../baz"), ("/", "./a/./b"), ("/a/b", "../../../c"), ("/a", "..")] {
        let pushed = format!("{}/{}", base.trim_end_matches('/'), sub);
        assert_eq!(base.normalize_with(sub), pushed.as_str().normalize(), "{base} + {sub}");
    }
}

#[test]
fn normalize_leaves_no_dots_and_keeps_the_root() {
    for s in ["/a/./b/../c", "/..", "/./x/../..", "a/../../b/."] {
        let n = s.normalize();
        assert!(components(&n).iter().all(|c| !matches!(c, Component::CurDir | Component::ParentDir)), "{s}");
        assert_eq!(s.starts_with('/'), n.starts_with('/'), "{s}");
    }
}
