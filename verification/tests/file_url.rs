use rspack_resolver::file_url::resolve_file_protocol;
use rspack_resolver::ResolveError;

#[test]
fn non_file_specifiers_are_returned_unchanged() {
    assert_eq!(resolve_file_protocol("./foo").unwrap(), "./foo");
    assert_eq!(resolve_file_protocol("http://x/y").unwrap(), "http://x/y");
}

#[test]
fn file_urls_become_paths() {
    assert_eq!(resolve_file_protocol("file:///a/b.js").unwrap(), "/a/b.js");
    assert_eq!(resolve_file_protocol("file:///a%20b/c.js?q=1#h").unwrap(), "/a b/c.js?q=1#h");
    assert_eq!(resolve_file_protocol("file:///%E2%82%AC").unwrap(), "/€");
    assert_eq!(resolve_file_protocol("file://").unwrap(), "/");
}

#[test]
fn file_url_errors() {
    assert_eq!(
        resolve_file_protocol("file://host/a"),
        Err(ResolveError::PathNotSupported("file://host/a".to_string()))
    );
    assert_eq!(
        resolve_file_protocol("file:///a%2Fb"),
        Err(ResolveError::PathNotSupported("file:///a%2Fb".to_string()))
    );
    assert_eq!(
        resolve_file_protocol("file:///%FF"),
        Err(ResolveError::PathNotSupported("file:///%FF".to_string()))
    );
}
