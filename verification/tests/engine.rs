use webview_ext::cache::cache_kinds;
use webview_ext::cookie::distinct;
use webview_ext::jar::record_origins;
use webview_ext::Cookie;
use webview_ext::CookieError;
use webview_ext::CookieHost;
use webview_ext::CookiePattern;
use webview_ext::NativeCookie;
use webview_ext::NativeExpiry;
use webview_ext::NativeSameSite;
use webview_ext::WebsiteDataKind;

fn cookie(name: &str, value: &str) -> Cookie {
    let native = NativeCookie {
        name: Some(name.to_string()),
        value: Some(value.to_string()),
        domain: Some("example.com".to_string()),
        path: Some("/".to_string()),
        port_list: Some(vec![]),
        expires: NativeExpiry::UnixSeconds(1),
        is_http_only: false,
        same_site: NativeSameSite::Kind(2),
        is_secure: false,
        is_session: None,
        comment: None,
        comment_url: None,
    };
    Cookie::try_from(&native).unwrap()
}

fn shareable<T: Send + Sync + Clone>() {}

#[test]
fn clearing_the_cache_spares_the_cookies() {
    let kinds = cache_kinds();
    assert_eq!(
        kinds,
        vec![
            WebsiteDataKind::MemoryCache,
            WebsiteDataKind::DiskCache,
            WebsiteDataKind::OfflineWebApplicationCache,
        ]
    );
    assert!(!kinds.contains(&WebsiteDataKind::Cookies));
    assert!(WebsiteDataKind::DiskCache.is_cache());
    assert!(WebsiteDataKind::MemoryCache.is_cache());
    assert!(WebsiteDataKind::OfflineWebApplicationCache.is_cache());
    assert!(!WebsiteDataKind::Cookies.is_cache());
    assert!(!WebsiteDataKind::LocalStorage.is_cache());
    assert!(!WebsiteDataKind::SessionStorage.is_cache());
    assert!(!WebsiteDataKind::WebSqlDatabases.is_cache());
    assert!(!WebsiteDataKind::IndexedDbDatabases.is_cache());
}

#[test]
fn origins_of_a_listed_domain() {
    assert_eq!(
        record_origins("example.com"),
        ("https://example.com".to_string(), "http://example.com".to_string())
    );
    assert_eq!(
        record_origins("..example.com"),
        ("https://example.com".to_string(), "http://example.com".to_string())
    );
    assert_eq!(record_origins("."), ("https://".to_string(), "http://".to_string()));
    assert_eq!(record_origins("a.b."), ("https://a.b.".to_string(), "http://a.b.".to_string()));
}

#[test]
fn same_cookie_is_equal_in_every_field() {
    let one = cookie("id", "1");
    assert!(one.same_as(&cookie("id", "1")));
    assert!(!one.same_as(&cookie("id", "2")));
    assert!(!one.same_as(&cookie("other", "1")));
    let mut changed = cookie("id", "1");
    changed.port_list = Some(vec![80]);
    assert!(!one.same_as(&changed));
    changed.port_list = None;
    assert!(!one.same_as(&changed));
    let mut session = cookie("id", "1");
    session.is_session = Some(false);
    assert!(!one.same_as(&session));
    let mut commented = cookie("id", "1");
    commented.comment = Some(String::new());
    assert!(!one.same_as(&commented));
    assert!(one.same_as(&one.clone()));
}

#[test]
fn distinct_keeps_first_occurrences() {
    let cookies = vec![
        cookie("a", "1"),
        cookie("b", "1"),
        cookie("a", "1"),
        cookie("a", "2"),
        cookie("b", "1"),
    ];
    let once = distinct(cookies);
    assert!(once == vec![cookie("a", "1"), cookie("b", "1"), cookie("a", "2")]);
    assert!(distinct(vec![]).is_empty());
}

#[test]
fn values_can_be_shared_between_threads() {
    shareable::<CookiePattern>();
    shareable::<Cookie>();
    shareable::<CookieHost>();
    shareable::<CookieError>();
}
