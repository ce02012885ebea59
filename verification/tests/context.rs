use rspack_resolver::{ResolveContext, ResolveError};

#[test]
fn context_setters() {
    let mut ctx = ResolveContext::default();
    ctx.with_fully_specified(true);
    assert!(ctx.fully_specified);
    ctx.with_query_fragment(Some("?a"), None);
    ctx.with_query_fragment(None, Some("#b"));
    assert_eq!(ctx.query.as_deref(), Some("?a"));
    assert_eq!(ctx.fragment.as_deref(), Some("#b"));
    ctx.add_file_dependency("/x");
    assert!(ctx.file_dependencies.is_none());
    ctx.init_file_dependencies();
    ctx.add_file_dependency("/x");
    ctx.add_missing_dependency("/y");
    assert_eq!(ctx.file_dependencies, Some(vec!["/x".to_string()]));
    assert_eq!(ctx.missing_dependencies, Some(vec!["/y".to_string()]));
    ctx.with_resolving_alias("a".to_string());
    assert_eq!(ctx.resolving_alias.as_deref(), Some("a"));
}

#[test]
fn recursion_is_detected_after_sixty_four_levels() {
    let mut ctx = ResolveContext::default();
    for _ in 0..64 {
        assert_eq!(ctx.test_for_infinite_recursion(), Ok(()));
    }
    assert_eq!(ctx.test_for_infinite_recursion(), Err(ResolveError::Recursion));
    assert_eq!(ctx.depth, 65);
}

#[test]
fn test_coverage() {
    let error = ResolveError::NotFound("x".into());
    assert_eq!(format!("{error:?}"), r#"NotFound("x")"#);
    assert_eq!(error.clone(), error);

    let error = ResolveError::Specifier(rspack_resolver::SpecifierError::Empty("x".into()));
    assert_eq!(format!("{error:?}"), r#"Specifier(Empty("x"))"#);
    assert_eq!(error.clone(), error);
    assert!(ResolveError::Ignored("a".into()).is_ignore());
    assert!(!error.is_ignore());
}
