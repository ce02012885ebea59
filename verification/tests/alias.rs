use rspack_resolver::alias::{
    alias_value_specifier, compile_alias, AliasAction, AliasEvent, AliasMatchKind, AliasValue, AliasWalk,
};
use rspack_resolver::context::ResolveContext;
use rspack_resolver::error::ResolveError;

fn aliases() -> Vec<(String, Vec<AliasValue>)> {
    vec![
        ("foo$".to_string(), vec![AliasValue::Path("./bar".to_string())]),
        ("@/*".to_string(), vec![AliasValue::Path("./src/*".to_string())]),
        ("lodash".to_string(), vec![AliasValue::Ignore, AliasValue::Path("x".to_string())]),
    ]
}

#[test]
fn compiles_keys_by_kind() {
    let compiled = compile_alias(&aliases());
    let all = compiled.matching(b"f");
    assert_eq!(all.len(), 1);
    assert_eq!(all[0].key(), "foo");
    assert!(matches!(all[0].match_kind(), AliasMatchKind::Exact));
    let wildcard = compiled.matching(b"@/x");
    assert_eq!(wildcard.len(), 1);
    assert_eq!(wildcard[0].key(), "@/*");
    match wildcard[0].match_kind() {
        AliasMatchKind::Wildcard { prefix, suffix } => {
            assert_eq!(prefix, "@/");
            assert_eq!(suffix, "");
        }
        _ => panic!("expected a wildcard"),
    }
    let lodash = compiled.matching(b"lodash/fp");
    assert_eq!(lodash.len(), 1);
    assert!(matches!(lodash[0].match_kind(), AliasMatchKind::Prefix));
    assert_eq!(lodash[0].specifiers(), &vec![AliasValue::Ignore, AliasValue::Path("x".to_string())]);
}

#[test]
fn key_matching() {
    let compiled = compile_alias(&aliases());
    let foo = compiled.matching(b"foo")[0];
    assert!(foo.key_matches(b"foo"));
    assert!(!foo.key_matches(b"foo/bar"));
    assert!(!foo.key_matches(b"fo"));
    let lodash = compiled.matching(b"lodash")[0];
    assert!(lodash.key_matches(b"lodash"));
    assert!(lodash.key_matches(b"lodash/fp"));
    assert!(lodash.key_matches(b"lodash\\fp"));
    assert!(!lodash.key_matches(b"lodash-es"));
    let wildcard = compiled.matching(b"@")[0];
    assert!(wildcard.key_matches(b"@anything"));
    assert!(!wildcard.key_matches(b"x"));
}

#[test]
fn fast_reject() {
    let compiled = compile_alias(&aliases());
    assert!(compiled.may_match(b"foo"));
    assert!(!compiled.may_match(b"react"));
    assert!(!compiled.may_match(b""));
    assert!(compiled.any_key_matches(b"lodash/fp"));
    assert!(compiled.any_key_matches(b"@/a"));
    assert!(!compiled.any_key_matches(b"lodash-es"));
    assert!(!compiled.any_key_matches(b"react"));
    assert!(compiled.matching(b"react").is_empty());
}

#[test]
fn empty_keys_are_always_evaluated() {
    let compiled = compile_alias(&vec![
        ("".to_string(), vec![AliasValue::Ignore]),
        ("a".to_string(), vec![AliasValue::Ignore]),
    ]);
    assert!(compiled.may_match(b"zzz"));
    assert!(compiled.may_match(b""));
    assert_eq!(compiled.matching(b"zzz").len(), 1);
    assert_eq!(compiled.matching(b"abc").len(), 2);
    assert!(compiled.any_key_matches(b"/x"));
    assert!(compiled.any_key_matches(b""));
    assert!(!compiled.any_key_matches(b"zzz"));
}

#[test]
fn rewrites_wildcard_requests() {
    let kind = AliasMatchKind::Wildcard { prefix: "@/".to_string(), suffix: "".to_string() };
    assert_eq!(
        alias_value_specifier("@/components/button", "@/*", &kind, "./src/*", false),
        Some("./src/components/button".to_string())
    );
    assert_eq!(alias_value_specifier("@/x", "@/*", &kind, "./fixed", false), Some("./fixed".to_string()));
    assert_eq!(alias_value_specifier("abc", "@/*", &kind, "./src/*", false), None);
    let kind = AliasMatchKind::Wildcard { prefix: "#".to_string(), suffix: ".js".to_string() };
    assert_eq!(
        alias_value_specifier("#lib/a.js", "#*.js", &kind, "./lib/*.mjs", false),
        Some("./lib/lib/a.mjs".to_string())
    );
    assert_eq!(alias_value_specifier("#lib/a.ts", "#*.js", &kind, "./lib/*.mjs", false), None);
}

#[test]
fn rewrites_prefix_requests() {
    let kind = AliasMatchKind::Prefix;
    assert_eq!(
        alias_value_specifier("lodash/fp", "lodash", &kind, "/modules/./lodash", false),
        Some("/modules/lodash/fp".to_string())
    );
    assert_eq!(alias_value_specifier("lodash/fp", "lodash", &kind, "/modules/lodash.js", true), None);
    assert_eq!(alias_value_specifier("lodash", "lodash", &kind, "./l", true), Some("./l".to_string()));
    assert_eq!(alias_value_specifier("lodash/", "lodash", &kind, "./l", false), Some("./l".to_string()));
    assert_eq!(alias_value_specifier("./bar", "./bar", &kind, "./bar", false), None);
    assert_eq!(alias_value_specifier("./bar/x", "./b", &kind, "./bar", false), None);
    assert_eq!(
        alias_value_specifier("foo", "foo", &AliasMatchKind::Exact, "./bar", false),
        Some("./bar".to_string())
    );
}

fn expect_resolve(action: &AliasAction) -> String {
    match action {
        AliasAction::Resolve(s) => s.clone(),
        other => panic!("expected a resolution, got {other:?}"),
    }
}

#[test]
fn walk_resolves_an_exact_alias() {
    let compiled = compile_alias(&aliases());
    let mut ctx = ResolveContext { fully_specified: true, ..ResolveContext::default() };
    let (mut walk, action) = AliasWalk::start(&compiled, "foo", "/project", &mut ctx);
    assert_eq!(expect_resolve(&action), "./bar");
    assert!(!ctx.fully_specified);
    let done = walk.on_event(&compiled, AliasEvent::Resolved(Ok("/project/bar.js".to_string())), &mut ctx);
    match done {
        AliasAction::Done(Ok(Some(p))) => assert_eq!(p, "/project/bar.js"),
        other => panic!("unexpected {other:?}"),
    }
}

#[test]
fn walk_without_a_matching_key_finds_no_alias() {
    let compiled = compile_alias(&aliases());
    let mut ctx = ResolveContext { fully_specified: true, ..ResolveContext::default() };
    let (_, action) = AliasWalk::start(&compiled, "react", "/project", &mut ctx);
    assert!(matches!(action, AliasAction::Done(Ok(None))));
    assert!(ctx.fully_specified);
    let (_, action) = AliasWalk::start(&compiled, "foo/x", "/project", &mut ctx);
    assert!(matches!(action, AliasAction::Done(Ok(None))));
}

#[test]
fn walk_stops_at_an_ignored_alias() {
    let compiled = compile_alias(&aliases());
    let mut ctx = ResolveContext::default();
    let (_, action) = AliasWalk::start(&compiled, "lodash/fp", "/project", &mut ctx);
    match action {
        AliasAction::Done(Err(ResolveError::Ignored(p))) => assert_eq!(p, "/project/lodash"),
        other => panic!("unexpected {other:?}"),
    }
}

#[test]
fn walk_reports_a_matched_alias_that_did_not_resolve() {
    let compiled = compile_alias(&aliases());
    let mut ctx = ResolveContext::default();
    let (mut walk, action) = AliasWalk::start(&compiled, "@/x", "/project", &mut ctx);
    assert_eq!(expect_resolve(&action), "./src/x");
    let done = walk.on_event(&compiled, AliasEvent::Resolved(Err(ResolveError::NotFound("./src/x".to_string()))), &mut ctx);
    match done {
        AliasAction::Done(Err(ResolveError::MatchedAliasNotFound(a, b))) => {
            assert_eq!(a, "@/x");
            assert_eq!(b, "@/*");
        }
        other => panic!("unexpected {other:?}"),
    }
}

#[test]
fn walk_passes_over_file_values_and_passes_on_other_errors() {
    let table = vec![(
        "a".to_string(),
        vec![AliasValue::Path("/abs/a.js".to_string()), AliasValue::Path("./b/".to_string())],
    )];
    let compiled = compile_alias(&table);
    let mut ctx = ResolveContext::default();
    let (mut walk, action) = AliasWalk::start(&compiled, "a/c", "/project", &mut ctx);
    match &action {
        AliasAction::CheckFile(p) => assert_eq!(p, "/abs/a.js"),
        other => panic!("unexpected {other:?}"),
    }
    let action = walk.on_event(&compiled, AliasEvent::File(true), &mut ctx);
    match &action {
        AliasAction::CheckFile(p) => assert_eq!(p, "b"),
        other => panic!("unexpected {other:?}"),
    }
    let action = walk.on_event(&compiled, AliasEvent::File(false), &mut ctx);
    assert_eq!(expect_resolve(&action), "b/c");
    let done = walk.on_event(&compiled, AliasEvent::Resolved(Err(ResolveError::Recursion)), &mut ctx);
    assert!(matches!(done, AliasAction::Done(Err(ResolveError::Recursion))));
}
