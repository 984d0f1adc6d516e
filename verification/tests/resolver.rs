use sebeke::resolver::{
    find_next_wildcard, fill_wildcards, is_canonical, is_valid_zenoh, map_captures,
    resolve_zenoh_url, try_resolve_zenoh_url, ResolverError,
};
use sebeke::wildcard::expression_of;

#[test]
fn test_exact_match() {
    let result = resolve_zenoh_url("demo/example", "http://target/v1", "demo/example").unwrap();
    assert_eq!(result, "http://target/v1");
}

#[test]
fn test_double_wildcard_suffix() {
    // Should capture multiple segments
    let result = resolve_zenoh_url(
        "sensors/**",
        "http://api/v1/**",
        "sensors/building1/floor2/temp",
    )
    .unwrap();
    assert_eq!(result, "http://api/v1/building1/floor2/temp");
}

#[test]
fn test_single_wildcard_middle() {
    // Should match exactly one segment
    let result = resolve_zenoh_url(
        "room/*/lighting",
        "http://api/electricity/*/power",
        "room/kitchen/lighting",
    )
    .unwrap();
    assert_eq!(result, "http://api/electricity/kitchen/power");

    // Should fail if there are extra segments
    assert!(resolve_zenoh_url(
        "room/*/lighting",
        "http://api/electricity/*/power",
        "room/kitchen/area1/lighting"
    )
    .is_err());
}

#[test]
fn test_fragment_wildcard() {
    let result = resolve_zenoh_url("dev-$*", "internal/device-$*", "dev-001").unwrap();
    assert_eq!(result, "internal/device-001");
}

#[test]
fn test_mixed_wildcards() {
    let result = resolve_zenoh_url(
        "geo/*/building/**",
        "map/*/struct/**",
        "geo/london/building/mall/top_floor",
    )
    .unwrap();
    assert_eq!(result, "map/london/struct/mall/top_floor");
}

#[test]
fn test_no_match_error() {
    let result = resolve_zenoh_url("a/b/c", "x/y/z", "a/b/d");
    match result {
        Err(ResolverError::NoMatch) => (),
        _ => panic!("Expected NoMatch error"),
    }
}

#[test]
fn test_empty_wildcard_match() {
    // A double wildcard matches zero characters behind the slash.
    assert_eq!(
        resolve_zenoh_url("data/**", "archive/**", "data/").unwrap(),
        "archive/"
    );
}

#[test]
fn url_pattern_without_trailing_slash() {
    assert_eq!(
        resolve_zenoh_url("/events/**", "https://api.example.com/v1", "/events/**").unwrap(),
        "https://api.example.com/v1"
    );
}

#[test]
fn wildcard_local_prefix_without_slash() {
    assert!(resolve_zenoh_url(
        "/events**",
        "https://api.example.com/v1/**",
        "/events/orders"
    )
    .is_err());
}

#[test]
fn topic_with_double_slash() {
    assert!(
        resolve_zenoh_url("/**", "https://api.example.com/**", "//anything/here/").is_err(),
    );
}

#[test]
fn canonical_paths() {
    assert!(is_canonical(""));
    assert!(is_canonical("a/b"));
    assert!(is_canonical("a/b/"));
    assert!(is_canonical("**"));
    assert!(is_canonical("a/**"));
    assert!(!is_canonical("a//b"));
    assert!(!is_canonical("a**"));
    assert!(!is_canonical("a/***"));
}

#[test]
fn valid_patterns() {
    assert!(is_valid_zenoh(""));
    assert!(is_valid_zenoh("a/b"));
    assert!(is_valid_zenoh("/a"));
    assert!(!is_valid_zenoh("a/b/"));
    assert!(!is_valid_zenoh("a//b"));
    assert!(!is_valid_zenoh("a**"));
}

#[test]
fn every_resolver_error() {
    assert!(matches!(
        resolve_zenoh_url("a/*", "x/*", "a//b"),
        Err(ResolverError::NonCanonicalPath)
    ));
    assert!(matches!(
        resolve_zenoh_url("a/", "x/*", "a/b"),
        Err(ResolverError::InvalidPattern)
    ));
    assert!(matches!(
        try_resolve_zenoh_url("a/(", "x/*", "a/b"),
        Some(Err(ResolverError::InvalidPattern))
    ));
    assert!(matches!(
        resolve_zenoh_url("a/*", "x/*", "b/c"),
        Err(ResolverError::NoMatch)
    ));
}

#[test]
fn expressions() {
    assert_eq!(expression_of("a.b/*/$*/**"), "^a\\.b/([^/]+)/([^/]*)/(.*)$");
    assert_eq!(expression_of(""), "^$");
    assert_eq!(expression_of("___SINGLE___"), "^([^/]+)$");
}

#[test]
fn wildcards_are_found_from_the_left() {
    assert_eq!(find_next_wildcard("a/*/**"), Some(("*", 2)));
    assert_eq!(find_next_wildcard("a/**/*"), Some(("**", 2)));
    assert_eq!(find_next_wildcard("$*/**"), Some(("$*", 0)));
    assert_eq!(find_next_wildcard("é/*"), Some(("*", 3)));
    assert_eq!(find_next_wildcard("a/b"), None);
}

#[test]
fn values_fill_wildcards_in_order() {
    let values = vec!["x".to_string(), "y".to_string(), "z".to_string()];
    assert_eq!(fill_wildcards("*/-$*/**", &values), "x/-y/z");
    assert_eq!(fill_wildcards("*", &values), "x");
    assert_eq!(fill_wildcards("*/*/*/*", &values), "x/y/z/*");
    // A value with a wildcard in it is filled again.
    let wild = vec!["*".to_string(), "y".to_string()];
    assert_eq!(fill_wildcards("a/*", &wild), "a/y");
}

#[test]
fn captures_are_mapped() {
    let found = Some(vec![Some("a/b".to_string()), Some("b".to_string())]);
    assert_eq!(map_captures("x/*", &found).unwrap(), "x/b");
    assert!(matches!(map_captures("x/*", &None), Err(ResolverError::NoMatch)));
}

#[test]
fn double_wildcards_take_as_much_as_they_can() {
    assert_eq!(
        resolve_zenoh_url("**/x/**", "<**><**>", "a/x/b/x/c").unwrap(),
        "<a/x/b><c>"
    );
    assert_eq!(resolve_zenoh_url("a$*$*", "<$*><$*>", "abc").unwrap(), "<bc><>");
}

#[test]
fn single_wildcards_take_something() {
    assert!(resolve_zenoh_url("a/*", "x/*", "a/").is_err());
    assert_eq!(resolve_zenoh_url("a/$*", "x/$*", "a/").unwrap(), "x/");
}

#[test]
fn dots_are_literal() {
    assert!(resolve_zenoh_url("a.b", "x", "axb").is_err());
    assert_eq!(resolve_zenoh_url("a.b", "x", "a.b").unwrap(), "x");
}

#[test]
fn lines_are_not_crossed() {
    assert!(resolve_zenoh_url("a/**", "x/**", "a/b\nc").is_err());
    assert_eq!(resolve_zenoh_url("a/*", "x/*", "a/b\nc").unwrap(), "x/b\nc");
}

#[test]
fn expressions_of_the_caller_are_expressions() {
    assert_eq!(
        try_resolve_zenoh_url("a/[0-9]+", "x", "a/12").unwrap().unwrap(),
        "x"
    );
    assert_eq!(
        try_resolve_zenoh_url("(a|b)/*", "x/*/*", "a/c").unwrap().unwrap(),
        "x/a/c"
    );
    // A group that takes no part.
    assert!(try_resolve_zenoh_url("(a)?b", "x/*", "b").is_none());
    assert!(try_resolve_zenoh_url("(a)?b", "x/*", "ab").is_some());
}

#[test]
fn long_patterns_are_taken() {
    let local = vec!["*"; 499].join("/");
    let topic = vec!["t"; 499].join("/");
    assert_eq!(resolve_zenoh_url(&local, "first/*", &topic).unwrap(), "first/t");
    let plain = "p".repeat(998);
    assert_eq!(resolve_zenoh_url(&plain, "y", &plain).unwrap(), "y");
    let wide = vec!["**"; 333].join("/");
    assert!(resolve_zenoh_url(&wide, "y", "q").is_err());
    let fragments = "$*".repeat(1000);
    assert_eq!(resolve_zenoh_url(&fragments, "<$*>", "abc").unwrap(), "<abc>");
}

#[test]
fn same_pattern_on_both_sides_gives_the_topic() {
    for topic in ["room/a/b/c", "room/x/y", "room/1/2/3/4"] {
        assert_eq!(resolve_zenoh_url("room/*/**", "room/*/**", topic).unwrap(), topic);
    }
}

#[test]
fn remote_without_wildcards_stays() {
    assert_eq!(
        resolve_zenoh_url("a/*/b/**", "https://w/x", "a/1/b/2/3").unwrap(),
        "https://w/x"
    );
}

#[test]
fn the_remote_pattern_decides_no_error() {
    for remote in ["", "x", "*/**", "//", "a**"] {
        assert_eq!(resolve_zenoh_url("a/*", remote, "a//b"), Err(ResolverError::NonCanonicalPath));
        assert_eq!(resolve_zenoh_url("a/", remote, "a/b"), Err(ResolverError::InvalidPattern));
        assert_eq!(resolve_zenoh_url("a/*", remote, "b/c"), Err(ResolverError::NoMatch));
        assert!(resolve_zenoh_url("a/*", remote, "a/b").is_ok());
    }
}

#[test]
fn marker_names_beside_wildcards() {
    // The double wildcard is replaced first, so the name behind it is plain text.
    assert_eq!(expression_of("**SINGLE*"), "^(.*)SINGLE([^/]+)$");
    assert_eq!(resolve_zenoh_url("**SINGLE*", "<**><*>", "abSINGLEc").unwrap(), "<ab><c>");
    assert_eq!(expression_of("**FRAG$*"), "^(.*)FRAG([^/]*)$");
    assert_eq!(expression_of("a/*FRAG$*"), "^a/([^/]+)FRAG([^/]*)$");
}

#[test]
fn marker_text_is_no_error() {
    assert_eq!(resolve_zenoh_url("a/___DOUBLE___", "x/**", "a/b/c").unwrap(), "x/b/c");
    assert_eq!(resolve_zenoh_url("a/___FRAG___", "x", "b"), Err(ResolverError::NoMatch));
    assert_eq!(expression_of("$*SINGLE*"), "^___FRAG([^/]+)SINGLE___$");
    assert_eq!(
        resolve_zenoh_url("$*SINGLE*", "x/*", "___FRAGyySINGLE___").unwrap(),
        "x/yy"
    );
}

#[test]
fn heavy_patterns_are_taken() {
    let clashing = "$*SINGLE*".repeat(111);
    assert_eq!(resolve_zenoh_url(&clashing, "x", "y"), Err(ResolverError::NoMatch));
    let wide = "\u{1F916}".repeat(12_000);
    assert_eq!(resolve_zenoh_url(&wide, "x", &wide).unwrap(), "x");
    let groups = "$*".repeat(1_200);
    assert_eq!(resolve_zenoh_url(&groups, "<$*>", "abc").unwrap(), "<abc>");
    let rests = vec!["**"; 600].join("/");
    assert_eq!(resolve_zenoh_url(&rests, "x", "y"), Err(ResolverError::NoMatch));
}
