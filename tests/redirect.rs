use redirector::config::{is_from_key_str, listen_port, sort_entries, to_key_for};
use redirector::router::{client_identity, route, Outcome};
use redirector::rule::{compile, Diagnostic, RedirectRule, RuleSet};

fn config(entries: &[(&str, &str)]) -> Vec<(String, String)> {
    entries.iter().map(|(k, v)| (k.to_string(), v.to_string())).collect()
}

fn location(outcome: &Outcome) -> Option<String> {
    match outcome {
        Outcome::Redirect { location } => Some(location.clone()),
        Outcome::NotFound => None,
    }
}

#[test]
fn exact_path_redirects_with_302() {
    let (rules, diags) = compile(&config(&[
        ("REDIRECT_A_FROM", "^example.com/old$"),
        ("REDIRECT_A_TO", "example.com/new"),
    ]));
    assert_eq!(rules.len(), 1);
    assert!(diags.is_empty());
    let d = route(&rules, "example.com", "/old", None, None);
    assert_eq!(location(&d.outcome), Some("example.com/new".to_string()));
    assert_eq!(d.outcome.status_code(), 302);
    assert_eq!(d.outcome.body(), "");
}

#[test]
fn capture_groups_are_substituted() {
    let (rules, _) = compile(&config(&[
        ("REDIRECT_B_FROM", "^(.*)/docs/(.*)$"),
        ("REDIRECT_B_TO", "$1/help/$2"),
    ]));
    let d = route(&rules, "site.io", "/docs/intro", None, None);
    assert_eq!(location(&d.outcome), Some("site.io/help/intro".to_string()));
}

#[test]
fn unmatched_request_is_not_found() {
    let (rules, _) = compile(&config(&[
        ("REDIRECT_A_FROM", "^example.com/old$"),
        ("REDIRECT_A_TO", "example.com/new"),
    ]));
    let d = route(&rules, "other.com", "/x", None, None);
    assert_eq!(location(&d.outcome), None);
    assert_eq!(d.outcome.status_code(), 404);
    assert_eq!(d.outcome.body(), "Not Found");
}

#[test]
fn from_without_to_gives_warning_and_no_rule() {
    let (rules, diags) = compile(&config(&[("REDIRECT_X_FROM", "^a$")]));
    assert_eq!(rules.len(), 0);
    assert_eq!(diags.len(), 1);
    match &diags[0] {
        Diagnostic::MissingTo { from_key, to_key } => {
            assert_eq!(from_key, "REDIRECT_X_FROM");
            assert_eq!(to_key, "REDIRECT_X_TO");
        }
        _ => panic!("expected a missing-key diagnostic"),
    }
}

#[test]
fn unpaired_from_does_not_block_other_rules() {
    let (rules, diags) = compile(&config(&[
        ("REDIRECT_X_FROM", "^x$"),
        ("REDIRECT_A_FROM", "^example.com/old$"),
        ("REDIRECT_A_TO", "example.com/new"),
    ]));
    assert_eq!(rules.len(), 1);
    assert_eq!(diags.len(), 1);
    let d = route(&rules, "example.com", "/old", None, None);
    assert_eq!(location(&d.outcome), Some("example.com/new".to_string()));
}

#[test]
fn invalid_pattern_is_reported_and_skipped() {
    let (rules, diags) = compile(&config(&[
        ("REDIRECT_BAD_FROM", "foo(bar"),
        ("REDIRECT_BAD_TO", "x"),
        ("REDIRECT_A_FROM", "^example.com/old$"),
        ("REDIRECT_A_TO", "example.com/new"),
    ]));
    assert_eq!(rules.len(), 1);
    assert_eq!(rules.get(0).pattern(), "^example.com/old$");
    assert_eq!(diags.len(), 1);
    match &diags[0] {
        Diagnostic::InvalidPattern { key, message } => {
            assert_eq!(key, "REDIRECT_BAD_FROM");
            assert!(!message.is_empty());
        }
        _ => panic!("expected an invalid-pattern diagnostic"),
    }
}

#[test]
fn config_without_pairs_has_no_rules() {
    let (rules, diags) = compile(&config(&[
        ("PORT", "8080"),
        ("REDIRECT_A_TO", "example.com/new"),
        ("HOME", "/root"),
    ]));
    assert_eq!(rules.len(), 0);
    assert!(diags.is_empty());
    let d = route(&rules, "example.com", "/old", None, None);
    assert_eq!(location(&d.outcome), None);
    let d = route(&RuleSet::empty(), "", "/", None, None);
    assert_eq!(location(&d.outcome), None);
}

#[test]
fn first_matching_rule_wins() {
    let (rules, _) = compile(&sort_entries(config(&[
        ("REDIRECT_B_TO", "second"),
        ("REDIRECT_B_FROM", "^site.io/.*$"),
        ("REDIRECT_A_TO", "first"),
        ("REDIRECT_A_FROM", "^site.io/a$"),
    ])));
    assert_eq!(rules.len(), 2);
    assert_eq!(rules.get(0).replacement(), "first");
    let d = route(&rules, "site.io", "/a", None, None);
    assert_eq!(location(&d.outcome), Some("first".to_string()));
    let d = route(&rules, "site.io", "/b", None, None);
    assert_eq!(location(&d.outcome), Some("second".to_string()));
}

#[test]
fn routing_is_repeatable() {
    let (rules, _) = compile(&config(&[
        ("REDIRECT_B_FROM", "^(.*)/docs/(.*)$"),
        ("REDIRECT_B_TO", "$1/help/$2"),
    ]));
    let a = route(&rules, "site.io", "/docs/intro", None, None);
    let b = route(&rules, "site.io", "/docs/intro", None, None);
    assert_eq!(location(&a.outcome), location(&b.outcome));
}

#[test]
fn matching_is_unanchored_and_replaces_all() {
    let rule = RedirectRule::new("o", "0").ok().unwrap();
    assert!(rule.is_match("foo.com/x"));
    assert_eq!(rule.substitute("foo.com/x"), "f00.c0m/x");
    assert!(!rule.is_match("bar"));
}

#[test]
fn matching_is_case_sensitive() {
    let (rules, _) = compile(&config(&[
        ("REDIRECT_A_FROM", "^example.com/old$"),
        ("REDIRECT_A_TO", "example.com/new"),
    ]));
    let d = route(&rules, "EXAMPLE.COM", "/old", None, None);
    assert_eq!(location(&d.outcome), None);
}

#[test]
fn identity_prefers_forwarded_for() {
    assert_eq!(client_identity(Some("1.2.3.4"), Some("5.6.7.8")), "1.2.3.4");
    assert_eq!(client_identity(Some("1.2.3.4"), None), "1.2.3.4");
}

#[test]
fn identity_falls_back_to_peer() {
    assert_eq!(client_identity(None, Some("5.6.7.8")), "5.6.7.8");
    assert_eq!(client_identity(Some(""), Some("5.6.7.8")), "5.6.7.8");
}

#[test]
fn identity_unknown_when_nothing_known() {
    assert_eq!(client_identity(None, None), "unknown");
    assert_eq!(client_identity(Some(""), None), "unknown");
}

#[test]
fn route_reports_identity() {
    let d = route(&RuleSet::empty(), "h", "/p", None, Some("::1"));
    assert_eq!(d.client_identity, "::1");
}

#[test]
fn empty_host_matches_path_only() {
    let (rules, _) = compile(&config(&[
        ("REDIRECT_P_FROM", "^/old$"),
        ("REDIRECT_P_TO", "/new"),
    ]));
    let d = route(&rules, "", "/old", None, None);
    assert_eq!(location(&d.outcome), Some("/new".to_string()));
}

#[test]
fn from_key_recognition() {
    assert!(is_from_key_str("REDIRECT_A_FROM"));
    assert!(is_from_key_str("REDIRECT__FROM"));
    assert!(!is_from_key_str("REDIRECT_FROM"));
    assert!(!is_from_key_str("REDIRECT_A_TO"));
    assert!(!is_from_key_str("XREDIRECT_A_FROM"));
    assert_eq!(to_key_for("REDIRECT_DOCS_FROM"), "REDIRECT_DOCS_TO");
    assert_eq!(to_key_for("REDIRECT__FROM"), "REDIRECT__TO");
}

#[test]
fn entries_sorted_by_key() {
    let sorted = sort_entries(config(&[("b", "1"), ("a", "2"), ("ab", "3"), ("a", "4")]));
    let keys: Vec<(&str, &str)> = sorted.iter().map(|(k, v)| (k.as_str(), v.as_str())).collect();
    assert_eq!(keys, vec![("a", "2"), ("a", "4"), ("ab", "3"), ("b", "1")]);
    assert!(sort_entries(Vec::new()).is_empty());
}

#[test]
fn port_parsing() {
    assert_eq!(listen_port(None), 3000);
    assert_eq!(listen_port(Some("8080")), 8080);
    assert_eq!(listen_port(Some("+80")), 80);
    assert_eq!(listen_port(Some("65535")), 65535);
    assert_eq!(listen_port(Some("65536")), 3000);
    assert_eq!(listen_port(Some("abc")), 3000);
    assert_eq!(listen_port(Some("")), 3000);
    assert_eq!(listen_port(Some(" 80")), 3000);
}
