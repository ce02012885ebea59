use rspack_resolver::cache::canonicalize::{canonical_or_fallback, CanonAction, CanonEvent, Canonicalization};
use rspack_resolver::cache::package_json_search::{PackageJsonSearch, SearchAction, SearchEvent};
use rspack_resolver::context::ResolveContext;
use rspack_resolver::error::{IoErrorKind, JSONError, ResolveError};
use rspack_resolver::json::JsonValue;
use rspack_resolver::package_json::PackageJson;

fn expect_symlink_check(action: &CanonAction) -> String {
    match action {
        CanonAction::IsSymlink(p) => p.clone(),
        other => panic!("expected a link check, got {other:?}"),
    }
}

fn expect_done(action: CanonAction) -> String {
    match action {
        CanonAction::Done(Ok(p)) => p,
        other => panic!("expected a canonical path, got {other:?}"),
    }
}

#[test]
fn path_without_links_is_its_own_canonical_form() {
    let (mut c, action) = Canonicalization::start("/a/b");
    assert_eq!(expect_symlink_check(&action), "/a");
    let action = c.on_event(CanonEvent::Symlink(false));
    assert_eq!(expect_symlink_check(&action), "/a/b");
    assert_eq!(expect_done(c.on_event(CanonEvent::Symlink(false))), "/a/b");
    let (_, root) = Canonicalization::start("/");
    assert_eq!(expect_done(root), "/");
}

#[test]
fn absolute_link_in_the_middle() {
    let (mut c, _) = Canonicalization::start("/a/b");
    match c.on_event(CanonEvent::Symlink(true)) {
        CanonAction::ReadLink(p) => assert_eq!(p, "/a"),
        other => panic!("unexpected {other:?}"),
    }
    let action = c.on_event(CanonEvent::Link(Ok("/x/./y/..".to_string())));
    assert_eq!(expect_symlink_check(&action), "/x");
    let action = c.on_event(CanonEvent::Symlink(false));
    assert_eq!(expect_symlink_check(&action), "/a/b");
    assert_eq!(expect_done(c.on_event(CanonEvent::Symlink(false))), "/x/b");
}

#[test]
fn relative_link_is_joined_onto_its_directory() {
    let (mut c, _) = Canonicalization::start("/a/l");
    let action = c.on_event(CanonEvent::Symlink(false));
    assert_eq!(expect_symlink_check(&action), "/a/l");
    match c.on_event(CanonEvent::Symlink(true)) {
        CanonAction::ReadLink(p) => assert_eq!(p, "/a/l"),
        other => panic!("unexpected {other:?}"),
    }
    let action = c.on_event(CanonEvent::Link(Ok("../t".to_string())));
    assert_eq!(expect_symlink_check(&action), "/t");
    assert_eq!(expect_done(c.on_event(CanonEvent::Symlink(false))), "/t");
}

#[test]
fn circle_of_links_and_unreadable_links() {
    let (mut c, _) = Canonicalization::start("/a");
    c.on_event(CanonEvent::Symlink(true));
    match c.on_event(CanonEvent::Link(Ok("/a".to_string()))) {
        CanonAction::Done(Err(ResolveError::IOError(e))) => {
            assert_eq!(e.message, "Circular symlink");
            assert_eq!(e.kind, IoErrorKind::NotFound);
        }
        other => panic!("unexpected {other:?}"),
    }
    let (mut d, _) = Canonicalization::start("/a");
    d.on_event(CanonEvent::Symlink(true));
    let err = ResolveError::NotFound("/a".to_string());
    assert!(matches!(d.on_event(CanonEvent::Link(Err(err))), CanonAction::Done(Err(ResolveError::NotFound(_)))));
}

fn expect_read(action: &SearchAction) -> String {
    match action {
        SearchAction::Read(p) => p.clone(),
        other => panic!("expected a read, got {other:?}"),
    }
}

#[test]
fn package_json_search_walks_up() {
    let mut ctx = ResolveContext::default();
    ctx.init_file_dependencies();
    let (mut search, action) = PackageJsonSearch::start("/p/a/file.js", false);
    assert!(matches!(&action, SearchAction::IsDir(p) if p == "/p/a/file.js"));
    let action = search.on_event(SearchEvent::Dir(false), &mut ctx);
    assert!(matches!(&action, SearchAction::IsDir(p) if p == "/p/a"));
    let action = search.on_event(SearchEvent::Dir(true), &mut ctx);
    assert_eq!(expect_read(&action), "/p/a/package.json");
    let action = search.on_event(SearchEvent::Read(None), &mut ctx);
    assert_eq!(expect_read(&action), "/p/package.json");
    match search.on_event(SearchEvent::Read(Some(b"{}".to_vec())), &mut ctx) {
        SearchAction::Parse { path, realpath, bytes } => {
            assert_eq!(path, "/p/package.json");
            assert_eq!(realpath, "/p/package.json");
            assert_eq!(bytes, b"{}".to_vec());
        }
        other => panic!("unexpected {other:?}"),
    }
    let pkg = PackageJson::new("/p/package.json".into(), "/p/package.json".into(), JsonValue::Null);
    match search.on_event(SearchEvent::Parsed(Ok(pkg)), &mut ctx) {
        SearchAction::Done(Ok(Some(found))) => assert_eq!(found.path, "/p/package.json"),
        other => panic!("unexpected {other:?}"),
    }
    assert_eq!(ctx.missing_dependencies, Some(vec!["/p/a/package.json".to_string()]));
    assert_eq!(ctx.file_dependencies, Some(vec!["/p/package.json".to_string()]));
}

#[test]
fn package_json_search_follows_links_and_reports_errors() {
    let mut ctx = ResolveContext::default();
    ctx.init_file_dependencies();
    let (mut search, _) = PackageJsonSearch::start("/p", true);
    search.on_event(SearchEvent::Dir(true), &mut ctx);
    let action = search.on_event(SearchEvent::Read(Some(b"x".to_vec())), &mut ctx);
    assert!(matches!(&action, SearchAction::Canonicalize(p) if p == "/p"));
    match search.on_event(SearchEvent::Realpath(Ok("/real/p".to_string())), &mut ctx) {
        SearchAction::Parse { realpath, .. } => assert_eq!(realpath, "/real/p/package.json"),
        other => panic!("unexpected {other:?}"),
    }
    let error = JSONError { path: "/p/package.json".into(), message: "bad".into(), line: 1, column: 1 };
    assert!(matches!(
        search.on_event(SearchEvent::Parsed(Err(error)), &mut ctx),
        SearchAction::Done(Err(ResolveError::Json(_)))
    ));
    assert_eq!(ctx.file_dependencies, Some(vec!["/p/package.json".to_string()]));

    let (mut at_root, _) = PackageJsonSearch::start("/", false);
    at_root.on_event(SearchEvent::Dir(true), &mut ctx);
    assert!(matches!(at_root.on_event(SearchEvent::Read(None), &mut ctx), SearchAction::Done(Ok(None))));
}

#[test]
fn fallback_replaces_a_failed_walk_only() {
    let walked: Result<String, ResolveError> = Ok("/a".to_string());
    assert!(matches!(canonical_or_fallback(walked, Some("/b".to_string())), Ok(p) if p == "/a"));
    let failed: Result<String, ResolveError> = Err(ResolveError::NotFound("/x".to_string()));
    assert!(matches!(canonical_or_fallback(failed, Some("/b".to_string())), Ok(p) if p == "/b"));
    let failed: Result<String, ResolveError> = Err(ResolveError::NotFound("/x".to_string()));
    assert!(matches!(canonical_or_fallback(failed, None), Err(ResolveError::NotFound(p)) if p == "/x"));
}

/// Runs a canonicalization against a file system given by its links (path, target).
fn canonicalize_with(path: &str, links: &[(&str, &str)]) -> Result<String, ResolveError> {
    let (mut c, mut action) = Canonicalization::start(path);
    loop {
        action = match action {
            CanonAction::IsSymlink(p) => c.on_event(CanonEvent::Symlink(links.iter().any(|(l, _)| *l == p))),
            CanonAction::ReadLink(p) => {
                let target = links.iter().find(|(l, _)| *l == p).map(|(_, t)| t.to_string());
                c.on_event(CanonEvent::Link(Ok(target.expect("asked to read a link"))))
            }
            CanonAction::Done(result) => return result,
        };
    }
}

#[test]
fn canonicalizing_twice_changes_nothing() {
    let links = [("/a/l", "../t/u"), ("/t", "/x/y")];
    let once = canonicalize_with("/a/l/f", &links).unwrap();
    assert_eq!(once, "/x/y/u/f");
    assert_eq!(canonicalize_with(&once, &links).unwrap(), once);
}
