use webview_ext::Cookie;
use webview_ext::CookieErrorKind;
use webview_ext::CookieHost;
use webview_ext::CookieHostScheme;
use webview_ext::CookieJar;
use webview_ext::CookiePattern;
use webview_ext::CookiePatternBuilder;
use webview_ext::CookieScan;
use webview_ext::Host;
use webview_ext::NativeCookie;
use webview_ext::NativeExpiry;
use webview_ext::NativeSameSite;
use webview_ext::Number;

fn native(name: &str, domain: &str, is_secure: bool) -> NativeCookie {
    NativeCookie {
        name: Some(name.to_string()),
        value: Some(format!("value of {}", name)),
        domain: Some(domain.to_string()),
        path: Some("/".to_string()),
        port_list: None,
        expires: NativeExpiry::Absent,
        is_http_only: false,
        same_site: NativeSameSite::Absent,
        is_secure,
        is_session: Some(true),
        comment: None,
        comment_url: None,
    }
}

fn broken(name: &str, domain: &str) -> NativeCookie {
    let mut cookie = native(name, domain, true);
    cookie.port_list = Some(vec![Number::Signed(70000)]);
    cookie
}

fn store() -> Vec<NativeCookie> {
    vec![
        native("first", "example.com", true),
        native("second", "api.example.com", true),
        native("third", "example.com", false),
        native("fourth", "other.com", true),
    ]
}

fn example_pattern() -> CookiePattern {
    CookiePatternBuilder::default()
        .match_hosts(vec![
            CookieHost::new(Host::Domain("example.com".to_string()))
                .with_schemes(&[CookieHostScheme::Https])
                .with_subdomains(),
        ])
        .build()
        .unwrap()
}

fn names(cookies: &[Cookie]) -> Vec<String> {
    cookies.iter().map(|cookie| cookie.name.clone()).collect()
}

#[test]
fn end_to_end_selects_the_three_of_example_com() {
    let pattern = example_pattern();
    let jar = CookieJar::new(store());
    let cookies = jar.get_cookies(Some(&pattern)).unwrap();
    assert_eq!(names(&cookies), vec!["first", "second", "third"]);
    assert_eq!(cookies[1].domain, "api.example.com");
    assert!(cookies[0].is_secure);
    assert!(!cookies[2].is_secure);
    assert_eq!(cookies[0].value, "value of first");
    assert_eq!(jar.len(), 4);
}

#[test]
fn end_to_end_deletes_exactly_those_three() {
    let pattern = example_pattern();
    let mut jar = CookieJar::new(store());
    let deleted = jar.delete_cookies(Some(&pattern)).unwrap();
    assert_eq!(names(&deleted), vec!["first", "second", "third"]);
    assert_eq!(jar.len(), 1);
    assert!(jar.get(0).unwrap() == &native("fourth", "other.com", true));
    assert!(jar.get(1).is_none());
    assert!(jar.get_cookies(Some(&pattern)).unwrap().is_empty());
    assert!(jar.delete_cookies(Some(&pattern)).unwrap().is_empty());
    assert_eq!(names(&jar.get_cookies(None).unwrap()), vec!["fourth"]);
}

#[test]
fn enumeration_is_repeatable() {
    let pattern = example_pattern();
    let jar = CookieJar::new(store());
    let first = jar.get_cookies(Some(&pattern)).unwrap();
    let second = jar.get_cookies(Some(&pattern)).unwrap();
    assert!(first == second);
}

#[test]
fn no_pattern_means_all() {
    let mut jar = CookieJar::new(store());
    assert_eq!(
        names(&jar.get_cookies(None).unwrap()),
        vec!["first", "second", "third", "fourth"]
    );
    let all = CookiePattern::default();
    assert_eq!(jar.get_cookies(Some(&all)).unwrap().len(), 4);
    assert_eq!(jar.delete_cookies(None).unwrap().len(), 4);
    assert!(jar.is_empty());
    assert!(jar.get_cookies(None).unwrap().is_empty());
}

#[test]
fn empty_jar_gives_nothing() {
    let mut jar = CookieJar::new(vec![]);
    assert!(jar.is_empty());
    assert!(jar.get_cookies(None).unwrap().is_empty());
    assert!(jar.delete_cookies(Some(&example_pattern())).unwrap().is_empty());
    assert!(CookieScan::new().next(None, &jar).is_none());
}

#[test]
fn leading_dots_of_the_domain_do_not_count() {
    let pattern = CookiePatternBuilder::default()
        .match_hosts(vec![CookieHost::new(Host::Domain("example.com".to_string()))])
        .build()
        .unwrap();
    assert!(pattern.cookie_matches(&native("a", ".example.com", true)).unwrap());
    assert!(pattern.cookie_matches(&native("a", "..example.com", false)).unwrap());
    assert!(pattern.cookie_matches(&native("a", "example.com", false)).unwrap());
    assert!(!pattern.cookie_matches(&native("a", ".a.example.com", false)).unwrap());
    assert!(!pattern.cookie_matches(&native("a", "example.com.", false)).unwrap());
    let cookie = pattern.select(&native("a", ".example.com", true)).unwrap().unwrap();
    assert_eq!(cookie.domain, ".example.com");
}

#[test]
fn cookie_without_domain_cannot_be_told() {
    let pattern = example_pattern();
    let mut cookie = native("a", "example.com", true);
    cookie.domain = None;
    let error = pattern.cookie_matches(&cookie).unwrap_err();
    assert_eq!(error.kind(), CookieErrorKind::MissingField);
    assert_eq!(error.detail(), "domain");
    assert!(CookiePattern::default().cookie_matches(&cookie).is_err());
    let jar = CookieJar::new(vec![native("ok", "example.com", true), cookie]);
    assert_eq!(jar.get_cookies(Some(&pattern)).err().unwrap().detail(), "domain");
}

#[test]
fn faults_of_unselected_cookies_never_show() {
    let pattern = example_pattern();
    let jar = CookieJar::new(vec![
        broken("elsewhere", "other.com"),
        native("here", "example.com", true),
    ]);
    assert!(pattern.select(&broken("elsewhere", "other.com")).is_none());
    assert_eq!(names(&jar.get_cookies(Some(&pattern)).unwrap()), vec!["here"]);
    assert_eq!(jar.get_cookies(None).err().unwrap().kind(), CookieErrorKind::PortOutOfRange);
}

#[test]
fn first_fault_ends_the_enumeration() {
    let pattern = example_pattern();
    let jar = CookieJar::new(vec![
        native("one", "example.com", true),
        broken("two", "example.com"),
        native("three", "example.com", true),
    ]);
    let error = jar.get_cookies(Some(&pattern)).err().unwrap();
    assert_eq!(error.kind(), CookieErrorKind::PortOutOfRange);
    assert_eq!(error.detail(), "70000");
}

#[test]
fn scan_hands_out_in_order_and_ends_on_the_fault() {
    let pattern = example_pattern();
    let jar = CookieJar::new(vec![
        native("skipped", "other.com", true),
        native("one", "example.com", true),
        native("skipped too", "other.com", false),
        broken("two", "a.example.com"),
        native("three", "example.com", true),
    ]);
    let mut scan = CookieScan::new();
    let first = scan.next(Some(&pattern), &jar).unwrap();
    assert_eq!(first.index, 1);
    assert_eq!(first.outcome.unwrap().name, "one");
    let second = scan.next(Some(&pattern), &jar).unwrap();
    assert_eq!(second.index, 3);
    assert_eq!(second.outcome.err().unwrap().kind(), CookieErrorKind::PortOutOfRange);
    assert!(scan.next(Some(&pattern), &jar).is_none());
    assert!(scan.next(Some(&pattern), &jar).is_none());
}

#[test]
fn scan_runs_to_the_end_without_faults() {
    let pattern = example_pattern();
    let jar = CookieJar::new(store());
    let mut scan = CookieScan::new();
    let mut seen = vec![];
    while let Some(found) = scan.next(Some(&pattern), &jar) {
        seen.push((found.index, found.outcome.unwrap().name));
    }
    assert_eq!(
        seen,
        vec![(0, "first".to_string()), (1, "second".to_string()), (2, "third".to_string())]
    );
    assert!(scan.next(Some(&pattern), &jar).is_none());
    let mut all = CookieScan::new();
    let mut count = 0;
    while let Some(found) = all.next(None, &jar) {
        assert_eq!(found.index, count);
        count += 1;
    }
    assert_eq!(count, 4);
}

#[test]
fn failed_deletion_keeps_the_fault_and_what_follows() {
    let pattern = example_pattern();
    let mut jar = CookieJar::new(vec![
        native("one", "example.com", true),
        native("kept", "other.com", true),
        broken("two", "example.com"),
        native("three", "example.com", true),
    ]);
    let error = jar.delete_cookies(Some(&pattern)).err().unwrap();
    assert_eq!(error.kind(), CookieErrorKind::PortOutOfRange);
    assert_eq!(jar.len(), 3);
    assert!(jar.get(0).unwrap() == &native("kept", "other.com", true));
    assert!(jar.get(1).unwrap() == &broken("two", "example.com"));
    assert!(jar.get(2).unwrap() == &native("three", "example.com", true));
}

#[test]
fn textual_pattern_selects_by_origin() {
    let pattern =
        CookiePatternBuilder::default().match_regex(r"^http://.*example\.com$").build().unwrap();
    let jar = CookieJar::new(store());
    assert_eq!(names(&jar.get_cookies(Some(&pattern)).unwrap()), vec!["third"]);
}
