use mcpjs::uri::{find_resource_pattern, uri_matches, PatternLookup};

#[test]
fn exact_pattern_matches_only_itself() {
    assert!(uri_matches("file:///a.txt", "file:///a.txt"));
    assert!(!uri_matches("file:///a.txt", "file:///b.txt"));
    assert!(!uri_matches("file:///a.txt", "file:///a.txt2"));
}

#[test]
fn deep_wildcard_matches_everything_below() {
    assert!(uri_matches("file:///docs/**", "file:///docs/guide/intro.md"));
    assert!(uri_matches("file:///docs/**", "file:///docs/a"));
    assert!(uri_matches("file:///docs/**", "file:///docs"));
    assert!(uri_matches("file:///docs/**", "file:///docs/"));
    // only what lies under `/docs`
    assert!(!uri_matches("file:///docs/**", "file:///docsx"));
    assert!(!uri_matches("file:///docs/**", "file:///docs-private/key.pem"));
    assert!(!uri_matches("file:///docs/**", "file:///doc"));
    assert!(!uri_matches("file:///docs/**", "file:///other/a"));
}

#[test]
fn single_wildcard_matches_one_segment() {
    assert!(uri_matches("db://users/*", "db://users/42"));
    assert!(uri_matches("db://users/*", "db://users/"));
    assert!(!uri_matches("db://users/*", "db://users42"));
    assert!(!uri_matches("db://users/*", "db://users/42/posts"));
    assert!(!uri_matches("db://users/*", "db://groups/42"));
    // a URI not longer than the prefix matches no `/*` pattern
    assert!(!uri_matches("db://users/*", "db://users"));
    assert!(!uri_matches("db://users/*", "db://"));
    assert!(!uri_matches("db://users/*", ""));
    assert!(!uri_matches("ab/*", "ééé"));
    assert!(uri_matches("ab/*", "ab/é"));
}

#[test]
fn glob_pieces_must_occur_in_order() {
    assert!(uri_matches("api://*/items/*.json", "api://v1/items/a.json"));
    assert!(uri_matches("a*c", "abc"));
    // the last piece ends the URI
    assert!(!uri_matches("a*c", "abcdef"));
    assert!(!uri_matches("a*b", "abc"));
    assert!(!uri_matches("file:///*.md", "file:///notes.md.bak"));
    assert!(uri_matches("file:///*.md", "file:///notes.md"));
    assert!(uri_matches("a*c", "acbc"));
    assert!(!uri_matches("a*a", "a"));
    assert!(uri_matches("a*a", "aa"));
    assert!(uri_matches("x*y*z", "xyz"));
    assert!(!uri_matches("a*c", "xabc"));
    assert!(!uri_matches("x*y*z", "xzy"));
    assert!(uri_matches("*", "anything"));
    assert!(uri_matches("*b", "ab"));
}

#[test]
fn pattern_without_star_is_exact() {
    assert!(!uri_matches("db://users", "db://users/1"));
}

#[test]
fn lookup_reports_first_match() {
    let patterns = vec![
        "db://users/*".to_string(),
        "file:///docs/**".to_string(),
        "file:///docs/a".to_string(),
    ];
    assert!(matches!(find_resource_pattern(&patterns, "file:///docs/a"), PatternLookup::Matched(1)));
    assert!(matches!(find_resource_pattern(&patterns, "db://users/7"), PatternLookup::Matched(0)));
    assert!(matches!(find_resource_pattern(&patterns, "http://example.com/x"), PatternLookup::NoMatch));
    // a `/*` pattern does not match a URI shorter than its prefix
    assert!(matches!(find_resource_pattern(&patterns, "http://x"), PatternLookup::NoMatch));
}

#[test]
fn lookup_passes_over_patterns_that_do_not_fit() {
    let patterns = vec!["ab/*".to_string(), "é*".to_string()];
    assert!(matches!(find_resource_pattern(&patterns, "ééé"), PatternLookup::Matched(1)));
    let patterns = vec!["db://users/*".to_string(), "db://users".to_string()];
    assert!(matches!(find_resource_pattern(&patterns, "db://users"), PatternLookup::Matched(1)));
    let patterns = vec!["db://users/*".to_string()];
    assert!(matches!(find_resource_pattern(&patterns, "db://users"), PatternLookup::NoMatch));
}

#[test]
fn trailing_star_matches_prefix() {
    assert!(uri_matches("db://users*", "db://users/42/posts"));
    assert!(uri_matches("db://users*", "db://users"));
    assert!(!uri_matches("db://users*", "db://user"));
}
