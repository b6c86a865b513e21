use webview_ext::pattern::domain_matches;
use webview_ext::pattern::text_rule_admitted;
use webview_ext::pattern::text_rule_verdict;
use webview_ext::CookieErrorKind;
use webview_ext::CookieHost;
use webview_ext::CookieHostScheme;
use webview_ext::CookiePattern;
use webview_ext::CookiePatternBuilder;
use webview_ext::Host;

fn domain(name: &str) -> Host {
    Host::Domain(name.to_string())
}

fn pattern_of(hosts: Vec<CookieHost>) -> CookiePattern {
    CookiePatternBuilder::default().match_hosts(hosts).build().unwrap()
}

#[test]
fn exact_host_matches_and_evil_twin_does_not() {
    let pattern = pattern_of(vec![CookieHost::new(domain("example.com"))]);
    assert!(pattern.matches("example.com", true));
    assert!(pattern.matches("example.com", false));
    assert!(!pattern.matches("evil-example.com", true));
    assert!(!pattern.matches("evil-example.com", false));
}

#[test]
fn plain_rule_does_not_match_subdomains() {
    let pattern = pattern_of(vec![CookieHost::new(domain("example.com"))]);
    assert!(!pattern.matches("a.example.com", true));
    assert!(!pattern.matches(".example.com", false));
    assert!(!pattern.matches("example.co", false));
    assert!(!pattern.matches("", false));
}

#[test]
fn subdomain_rule_matches_host_and_subdomains_only() {
    let pattern = pattern_of(vec![CookieHost::new(domain("example.com")).with_subdomains()]);
    assert!(pattern.matches("a.example.com", true));
    assert!(pattern.matches("example.com", true));
    assert!(pattern.matches("deep.a.example.com", false));
    assert!(!pattern.matches("notexample.com", true));
    assert!(!pattern.matches("example.com.evil.com", true));
}

#[test]
fn secure_cookie_needs_https_in_the_rule() {
    let http_only = pattern_of(vec![
        CookieHost::new(domain("example.com")).with_schemes(&[CookieHostScheme::Http]),
    ]);
    let https_only = pattern_of(vec![
        CookieHost::new(domain("example.com")).with_schemes(&[CookieHostScheme::Https]),
    ]);
    assert!(!http_only.matches("example.com", true));
    assert!(https_only.matches("example.com", true));
    assert!(http_only.matches("example.com", false));
    assert!(https_only.matches("example.com", false));
}

#[test]
fn any_matching_rule_suffices_whatever_the_order() {
    let blocked = CookieHost::new(domain("example.com")).with_schemes(&[CookieHostScheme::Http]);
    let open = CookieHost::new(domain("example.com")).with_schemes(&[CookieHostScheme::Https]);
    let other = CookieHost::new(domain("other.org"));
    let forward = pattern_of(vec![blocked.clone(), other.clone(), open.clone()]);
    let backward = pattern_of(vec![open, other, blocked]);
    for pattern in [forward, backward] {
        assert!(pattern.matches("example.com", true));
        assert!(pattern.matches("other.org", true));
        assert!(!pattern.matches("third.net", false));
    }
}

#[test]
fn empty_pattern_matches_everything() {
    let pattern = CookiePatternBuilder::default().build().unwrap();
    assert!(pattern.matches("", false));
    assert!(pattern.matches("", true));
    assert!(pattern.matches("example.com", true));
    assert!(pattern.matches("bücher.example", false));
    assert!(pattern.matches("例え.テスト", true));
    assert!(pattern.hosts().is_none());
}

#[test]
fn default_pattern_matches_everything() {
    let pattern = CookiePattern::default();
    assert!(pattern.matches("", false));
    assert!(pattern.matches("anything.at.all", true));
}

#[test]
fn empty_host_list_matches_everything() {
    let pattern = pattern_of(vec![]);
    assert!(pattern.matches("example.com", true));
    assert!(pattern.matches("", false));
    assert!(pattern.hosts().is_none());
}

#[test]
fn build_without_regex_ignores_the_textual_rule() {
    let pattern = CookiePatternBuilder::default().match_regex("(").build_without_regex().unwrap();
    assert!(pattern.matches("example.com", true));
}

#[test]
fn choosing_hosts_drops_the_textual_rule() {
    let pattern = CookiePatternBuilder::default()
        .match_regex("(")
        .match_hosts(vec![CookieHost::new(domain("example.com"))])
        .build()
        .unwrap();
    assert!(pattern.matches("example.com", true));
    assert!(!pattern.matches("other.com", true));
}

#[test]
fn choosing_a_textual_rule_drops_the_hosts() {
    let pattern = CookiePatternBuilder::default()
        .match_hosts(vec![CookieHost::new(domain("example.com"))])
        .match_regex(r"^https://other\.com$")
        .build()
        .unwrap();
    assert!(!pattern.matches("example.com", true));
    assert!(pattern.matches("other.com", true));
    assert!(pattern.hosts().is_none());
}

#[test]
fn rules_are_kept_once_in_first_seen_order() {
    let first = CookieHost::new(domain("example.com"));
    let second = CookieHost::new(domain("other.org")).with_subdomains();
    let pattern = pattern_of(vec![first.clone(), second.clone(), first.clone(), second.clone()]);
    let hosts = pattern.hosts().unwrap();
    assert_eq!(hosts, vec![first, second]);
}

#[test]
fn cloned_pattern_matches_alike() {
    let pattern = pattern_of(vec![CookieHost::new(domain("example.com")).with_subdomains()]);
    let copy = pattern.clone();
    assert!(copy.matches("a.example.com", true));
    assert!(!copy.matches("other.com", true));
    let text = CookiePatternBuilder::default().match_regex("example").build().unwrap().clone();
    assert!(text.matches("example.com", true));
}

#[test]
fn malformed_textual_rule_fails_at_build() {
    let result = CookiePatternBuilder::default().match_regex("(unbalanced").build();
    let error = match result {
        Ok(_) => panic!("an unbalanced group must not compile"),
        Err(error) => error,
    };
    assert_eq!(error.kind(), CookieErrorKind::InvalidPattern);
    assert!(!error.detail().is_empty());
    assert_ne!(error.detail(), "(unbalanced");
    assert_eq!(error.to_string(), error.detail());
}

#[test]
fn textual_rule_sees_https_always_and_http_unless_secure() {
    let http = CookiePatternBuilder::default().match_regex(r"^http://example\.com$").build().unwrap();
    assert!(http.matches("example.com", false));
    assert!(!http.matches("example.com", true));
    let https =
        CookiePatternBuilder::default().match_regex(r"^https://example\.com$").build().unwrap();
    assert!(https.matches("example.com", false));
    assert!(https.matches("example.com", true));
    assert!(!https.matches("example.org", true));
}

#[test]
fn textual_rule_is_applied_to_scheme_and_host() {
    let pattern =
        CookiePatternBuilder::default().match_regex(r"^https?://([a-z]+\.)?example\.com$").build().unwrap();
    assert!(pattern.matches("example.com", true));
    assert!(pattern.matches("api.example.com", false));
    assert!(!pattern.matches("api2.example.com", false));
}

#[test]
fn text_rule_verdict_table() {
    assert!(text_rule_verdict(true, false, true));
    assert!(text_rule_verdict(true, false, false));
    assert!(text_rule_verdict(false, true, false));
    assert!(!text_rule_verdict(false, true, true));
    assert!(!text_rule_verdict(false, false, false));
}

#[test]
fn text_rule_admitted_maps_the_fault() {
    assert_eq!(text_rule_admitted(Ok(7)).unwrap(), 7);
    let error = text_rule_admitted::<u8>(Err("unclosed group".to_string())).unwrap_err();
    assert_eq!(error.kind(), CookieErrorKind::InvalidPattern);
    assert_eq!(error.detail(), "unclosed group");
}

#[test]
fn domain_matches_by_suffix_and_dot() {
    assert!(domain_matches("example.com", false, "example.com"));
    assert!(!domain_matches("example.com", false, "a.example.com"));
    assert!(domain_matches("example.com", true, "a.example.com"));
    assert!(domain_matches("example.com", true, ".example.com"));
    assert!(!domain_matches("example.com", true, "aexample.com"));
    assert!(!domain_matches("example.com", true, "com"));
    assert!(domain_matches("", false, ""));
    assert!(domain_matches("", true, "a."));
    assert!(!domain_matches("", true, "a"));
    assert!(domain_matches("bücher.de", true, "läden.bücher.de"));
}

#[test]
fn ip_hosts_match_by_their_text() {
    let v4 = pattern_of(vec![CookieHost::new(Host::Ipv4([192, 168, 0, 1]))]);
    assert!(v4.matches("192.168.0.1", true));
    assert!(!v4.matches("192.168.0.10", true));
    let v6 = pattern_of(vec![CookieHost::new(Host::Ipv6([0, 0, 0, 0, 0, 0, 0, 1]))]);
    assert!(v6.matches("[::1]", false));
    assert!(!v6.matches("::1", false));
}
