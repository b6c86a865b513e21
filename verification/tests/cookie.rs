use webview_ext::host::url_from_parsed;
use webview_ext::native::expires_from;
use webview_ext::native::expiry_from_parsed;
use webview_ext::native::ports_from;
use webview_ext::native::same_site_from;
use webview_ext::outside::MAX_TIMESTAMP;
use webview_ext::outside::MIN_TIMESTAMP;
use webview_ext::Cookie;
use webview_ext::CookieError;
use webview_ext::CookieErrorKind;
use webview_ext::NativeCookie;
use webview_ext::NativeExpiry;
use webview_ext::NativeSameSite;
use webview_ext::Number;

fn text(s: &str) -> Option<String> {
    Some(s.to_string())
}

fn plain(name: &str, domain: &str, is_secure: bool) -> NativeCookie {
    NativeCookie {
        name: text(name),
        value: text("secret"),
        domain: text(domain),
        path: text("/"),
        port_list: None,
        expires: NativeExpiry::Absent,
        is_http_only: false,
        same_site: NativeSameSite::Absent,
        is_secure,
        is_session: None,
        comment: None,
        comment_url: None,
    }
}

fn full() -> NativeCookie {
    NativeCookie {
        name: text("session"),
        value: text("s3cr3t-\"quoted\""),
        domain: text(".example.com"),
        path: text("/account"),
        port_list: Some(vec![Number::Signed(80), Number::Unsigned(443), Number::Floating(8080)]),
        expires: NativeExpiry::UnixSeconds(1_546_300_800),
        is_http_only: true,
        same_site: NativeSameSite::Token("Lax".to_string()),
        is_secure: true,
        is_session: Some(false),
        comment: text("a comment"),
        comment_url: text("https://example.com/about cookies"),
    }
}

fn failure(native: &NativeCookie) -> CookieError {
    match Cookie::try_from(native) {
        Ok(_) => panic!("the cookie must not normalise"),
        Err(error) => error,
    }
}

#[test]
fn conversion_keeps_what_it_reads() {
    let native = full();
    let cookie = Cookie::try_from(&native).unwrap();
    assert_eq!(cookie.name, "session");
    assert_eq!(cookie.value, "s3cr3t-\"quoted\"");
    assert_eq!(cookie.domain, ".example.com");
    assert_eq!(cookie.path, "/account");
    assert_eq!(cookie.port_list, Some(vec![80, 443, 8080]));
    assert_eq!(cookie.expires, Some(1_546_300_800));
    assert!(cookie.is_http_only);
    assert_eq!(cookie.same_site.as_deref(), Some("lax"));
    assert!(cookie.is_secure);
    assert_eq!(cookie.is_session, Some(false));
    assert_eq!(cookie.comment.as_deref(), Some("a comment"));
    assert_eq!(cookie.comment_url.as_deref(), Some("https://example.com/about%20cookies"));
}

#[test]
fn conversion_of_a_bare_cookie() {
    let cookie = Cookie::try_from(&plain("id", "example.com", false)).unwrap();
    assert_eq!(cookie.name, "id");
    assert_eq!(cookie.value, "secret");
    assert_eq!(cookie.domain, "example.com");
    assert_eq!(cookie.path, "/");
    assert_eq!(cookie.port_list, None);
    assert_eq!(cookie.expires, None);
    assert!(!cookie.is_http_only);
    assert_eq!(cookie.same_site, None);
    assert!(!cookie.is_secure);
    assert_eq!(cookie.is_session, None);
    assert_eq!(cookie.comment, None);
    assert_eq!(cookie.comment_url, None);
}

#[test]
fn conversion_is_repeatable_and_clone_is_equal() {
    let native = full();
    let first = Cookie::try_from(&native).unwrap();
    let second = Cookie::try_from(&native).unwrap();
    assert!(first == second);
    assert!(first.clone() == first);
    let other = Cookie::try_from(&plain("id", "example.com", false)).unwrap();
    assert!(first != other);
    assert!(first.cmp(&second) == std::cmp::Ordering::Equal);
}

#[test]
fn missing_mandatory_fields_are_named() {
    let mut native = full();
    native.path = None;
    let error = failure(&native);
    assert_eq!(error.kind(), CookieErrorKind::MissingField);
    assert_eq!(error.detail(), "path");
    assert_eq!(error.to_string(), "field `path` unexpectedly null");
    native.domain = None;
    assert_eq!(failure(&native).detail(), "domain");
    native.value = None;
    assert_eq!(failure(&native).detail(), "value");
    native.name = None;
    assert_eq!(failure(&native).detail(), "name");
}

#[test]
fn first_fault_in_field_order_decides() {
    let mut native = full();
    native.comment_url = text("not a url");
    native.same_site = NativeSameSite::Kind(7);
    assert_eq!(failure(&native).kind(), CookieErrorKind::UnknownSameSite);
    native.expires = NativeExpiry::UnixSeconds(i64::MAX);
    assert_eq!(failure(&native).kind(), CookieErrorKind::InvalidExpiry);
    native.port_list = Some(vec![Number::Signed(-1)]);
    assert_eq!(failure(&native).kind(), CookieErrorKind::PortOutOfRange);
    native.name = None;
    assert_eq!(failure(&native).kind(), CookieErrorKind::MissingField);
}

#[test]
fn ports_are_coerced_by_value() {
    assert_eq!(Number::Signed(0).to_port().unwrap(), 0);
    assert_eq!(Number::Signed(65535).to_port().unwrap(), 65535);
    assert_eq!(Number::Unsigned(65535).to_port().unwrap(), 65535);
    assert_eq!(Number::Floating(8080).to_port().unwrap(), 8080);
    assert_eq!(ports_from(&vec![]).unwrap(), Vec::<u16>::new());
    assert_eq!(
        ports_from(&vec![Number::Unsigned(1), Number::Signed(2), Number::Floating(3)]).unwrap(),
        vec![1, 2, 3]
    );
}

#[test]
fn ports_out_of_range_are_refused_not_truncated() {
    let cases = [
        (Number::Signed(65536), "65536"),
        (Number::Signed(-1), "-1"),
        (Number::Signed(i64::MIN), "-9223372036854775808"),
        (Number::Unsigned(65536), "65536"),
        (Number::Unsigned(u64::MAX), "18446744073709551615"),
        (Number::Floating(70000), "70000"),
        (Number::Floating(-3), "-3"),
    ];
    for (number, detail) in cases {
        let error = number.to_port().unwrap_err();
        assert_eq!(error.kind(), CookieErrorKind::PortOutOfRange);
        assert_eq!(error.detail(), detail);
        assert_eq!(error.to_string(), format!("port `{}` out of range", detail));
    }
    let error =
        ports_from(&vec![Number::Signed(80), Number::Signed(65537), Number::Signed(-5)]).unwrap_err();
    assert_eq!(error.detail(), "65537");
}

#[test]
fn same_site_by_name() {
    for (name, token) in [
        ("lax", Some("lax")),
        ("Lax", Some("lax")),
        ("STRICT", Some("strict")),
        ("strict", Some("strict")),
        ("None", Some("none")),
        ("none", Some("none")),
        ("", None),
        ("laxx", None),
        ("la", None),
        ("relaxed", None),
        ("ｌａｘ", None),
    ] {
        let policy = same_site_from(&NativeSameSite::Token(name.to_string())).unwrap();
        assert_eq!(policy.as_deref(), token, "for {:?}", name);
    }
    assert_eq!(same_site_from(&NativeSameSite::Absent).unwrap(), None);
}

#[test]
fn same_site_by_number() {
    assert_eq!(same_site_from(&NativeSameSite::Kind(0)).unwrap().as_deref(), Some("none"));
    assert_eq!(same_site_from(&NativeSameSite::Kind(1)).unwrap().as_deref(), Some("lax"));
    assert_eq!(same_site_from(&NativeSameSite::Kind(2)).unwrap().as_deref(), Some("strict"));
    for kind in [3, -1, i32::MAX, i32::MIN] {
        let error = same_site_from(&NativeSameSite::Kind(kind)).unwrap_err();
        assert_eq!(error.kind(), CookieErrorKind::UnknownSameSite);
        assert_eq!(error.detail(), kind.to_string());
        assert_eq!(error.to_string(), format!("same-site kind `{}` not supported", kind));
    }
}

#[test]
fn expiry_by_timestamp() {
    assert_eq!(expires_from(&NativeExpiry::Absent).unwrap(), None);
    assert_eq!(expires_from(&NativeExpiry::Session).unwrap(), None);
    assert_eq!(expires_from(&NativeExpiry::UnixSeconds(0)).unwrap(), Some(0));
    assert_eq!(expires_from(&NativeExpiry::UnixSeconds(-1)).unwrap(), Some(-1));
    assert_eq!(
        expires_from(&NativeExpiry::UnixSeconds(MAX_TIMESTAMP)).unwrap(),
        Some(253_402_300_799)
    );
    assert_eq!(
        expires_from(&NativeExpiry::UnixSeconds(MIN_TIMESTAMP)).unwrap(),
        Some(-377_705_116_800)
    );
}

#[test]
fn expiry_outside_the_calendar_is_refused() {
    for (timestamp, detail) in [
        (MAX_TIMESTAMP + 1, "253402300800"),
        (MIN_TIMESTAMP - 1, "-377705116801"),
        (i64::MAX, "9223372036854775807"),
        (i64::MIN, "-9223372036854775808"),
    ] {
        let error = expires_from(&NativeExpiry::UnixSeconds(timestamp)).unwrap_err();
        assert_eq!(error.kind(), CookieErrorKind::InvalidExpiry);
        assert_eq!(error.detail(), detail);
        assert_eq!(error.to_string(), detail);
    }
}

#[test]
fn expiry_by_written_date() {
    assert_eq!(
        expires_from(&NativeExpiry::Iso8601("2019-01-01T00:00:00Z".to_string())).unwrap(),
        Some(1_546_300_800)
    );
    assert_eq!(
        expires_from(&NativeExpiry::Iso8601("1970-01-01T01:00:00+01:00".to_string())).unwrap(),
        Some(0)
    );
    let error = expires_from(&NativeExpiry::Iso8601("next tuesday".to_string())).unwrap_err();
    assert_eq!(error.kind(), CookieErrorKind::InvalidExpiry);
    assert!(!error.detail().is_empty());
    assert_ne!(error.detail(), "next tuesday");
}

#[test]
fn expiry_from_parsed_maps_the_fault() {
    assert_eq!(expiry_from_parsed(Ok(42)).unwrap(), 42);
    let error = expiry_from_parsed(Err("bad date".to_string())).unwrap_err();
    assert_eq!(error.kind(), CookieErrorKind::InvalidExpiry);
    assert_eq!(error.detail(), "bad date");
}

#[test]
fn url_from_parsed_maps_the_fault() {
    assert_eq!(url_from_parsed(Ok("https://a.b/".to_string())).unwrap(), "https://a.b/");
    let error = url_from_parsed(Err("empty host".to_string())).unwrap_err();
    assert_eq!(error.kind(), CookieErrorKind::InvalidUrl);
    assert_eq!(error.detail(), "empty host");
}

#[test]
fn session_mark_makes_a_session_cookie() {
    let mut native = plain("id", "example.com", false);
    native.expires = NativeExpiry::Session;
    native.is_session = Some(false);
    let cookie = Cookie::try_from(&native).unwrap();
    assert_eq!(cookie.expires, None);
    assert_eq!(cookie.is_session, Some(true));
    native.is_session = None;
    assert_eq!(Cookie::try_from(&native).unwrap().is_session, Some(true));
    native.expires = NativeExpiry::Absent;
    native.is_session = Some(true);
    assert_eq!(Cookie::try_from(&native).unwrap().is_session, Some(true));
    native.expires = NativeExpiry::UnixSeconds(10);
    native.is_session = Some(false);
    assert_eq!(Cookie::try_from(&native).unwrap().is_session, Some(false));
}

#[test]
fn comment_url_that_does_not_parse_is_refused() {
    let mut native = plain("id", "example.com", false);
    native.comment_url = text("no scheme here");
    let error = failure(&native);
    assert_eq!(error.kind(), CookieErrorKind::InvalidUrl);
    assert!(!error.detail().is_empty());
    assert_ne!(error.detail(), "no scheme here");
}

#[test]
fn text_of_a_bare_cookie() {
    let cookie = Cookie::try_from(&plain("id", "example.com", false)).unwrap();
    assert_eq!(
        cookie.to_string(),
        "Cookie { name: \"id\", value: <...>, domain: \"example.com\", path: \"/\", \
         is_http_only: false, is_secure: false, is_session: None, .. }"
    );
}

#[test]
fn text_of_a_full_cookie_hides_the_value() {
    let cookie = Cookie::try_from(&full()).unwrap();
    let shown = cookie.to_string();
    assert_eq!(
        shown,
        "Cookie { name: \"session\", value: <...>, domain: \".example.com\", \
         path: \"/account\", port_list: [80, 443, 8080], expires: 1546300800, \
         is_http_only: true, same_site: \"lax\", is_secure: true, is_session: Some(false), \
         comment: \"a comment\", comment_url: \"https://example.com/about%20cookies\", .. }"
    );
    assert!(!shown.contains("s3cr3t"));
    let mut other = full();
    other.value = text("something else entirely");
    assert_eq!(Cookie::try_from(&other).unwrap().to_string(), shown);
}

#[test]
fn text_quotes_as_debug_does() {
    let mut native = plain("tab\there \"quoted\"", "example.com", true);
    native.port_list = Some(vec![]);
    native.is_session = Some(true);
    let cookie = Cookie::try_from(&native).unwrap();
    assert_eq!(
        cookie.to_string(),
        "Cookie { name: \"tab\\there \\\"quoted\\\"\", value: <...>, domain: \"example.com\", \
         path: \"/\", is_http_only: false, is_secure: true, is_session: Some(true), .. }"
    );
}

#[test]
fn error_from_a_description() {
    let error = CookieError::from("the view is gone".to_string());
    assert_eq!(error.kind(), CookieErrorKind::Other);
    assert_eq!(error.detail(), "the view is gone");
    assert_eq!(error.to_string(), "the view is gone");
    let made = CookieError::new(CookieErrorKind::MissingHost, "data:text/plain,hi".to_string());
    assert_eq!(made.to_string(), "url \"data:text/plain,hi\" has no host");
    assert_eq!(made.clone(), made);
}
