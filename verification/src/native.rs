//! Native cookies as the engines report them, and their normalisation into
//! the canonical [`Cookie`].

use vstd::prelude::*;

use crate::cookie::Cookie;
use crate::cookie::CookieView;
use crate::cookie::copy_optional_text;
use crate::cookie::optional_text;
use crate::error::CookieError;
use crate::error::CookieErrorKind;
use crate::error::CookieErrorView;
use crate::host::url_from_parsed;
use crate::host::url_parsed;
use crate::outside::iso8601_timestamp;
use crate::outside::MAX_TIMESTAMP;
use crate::outside::MIN_TIMESTAMP;
use crate::outside::parse_iso8601;
use crate::outside::parse_url;
use crate::outside::timestamp_is_representable;
use crate::outside::url_parse;
use crate::text::chars_of;
use crate::text::decimal_string;
use crate::text::signed_decimal;
use crate::text::signed_decimal_string;

verus! {

/// A native numeric cell: engines hand port numbers over as signed,
/// unsigned or floating-point numbers. A floating-point cell is held by the
/// whole number nearest to it.
#[derive(Clone, Copy, Debug, PartialEq, Eq, Hash, Structural)]
pub enum Number {
    Signed(i64),
    Unsigned(u64),
    Floating(i64),
}

/// The value of a numeric cell.
pub open spec fn number_value(number: Number) -> int {
    match number {
        Number::Signed(value) => value as int,
        Number::Unsigned(value) => value as int,
        Number::Floating(value) => value as int,
    }
}

/// The error for a number that is no port.
pub open spec fn port_out_of_range(value: int) -> CookieErrorView {
    CookieErrorView { kind: CookieErrorKind::PortOutOfRange, detail: signed_decimal(value) }
}

/// The port that a numeric cell stands for: its value, where that is within
/// `0..=65535`. Nothing is truncated.
pub open spec fn port_of(number: Number) -> Result<u16, CookieErrorView> {
    let value = number_value(number);
    if 0 <= value <= 65535 {
        Ok(value as u16)
    } else {
        Err(port_out_of_range(value))
    }
}

/// The ports that a list of cells stands for; the first cell that is no
/// port decides.
pub open spec fn ports_of(numbers: Seq<Number>) -> Result<Seq<u16>, CookieErrorView>
    decreases numbers.len(),
{
    if numbers.len() == 0 {
        Ok(Seq::empty())
    } else {
        match ports_of(numbers.drop_last()) {
            Err(e) => Err(e),
            Ok(ports) => match port_of(numbers.last()) {
                Ok(port) => Ok(ports.push(port)),
                Err(e) => Err(e),
            },
        }
    }
}

impl Number {
    /// The port that the cell stands for. A value outside `0..=65535` is
    /// refused, and the error holds the value.
    pub fn to_port(self) -> (r: Result<u16, CookieError>)
        ensures
            match r {
                Ok(port) => port_of(self) == Ok::<u16, CookieErrorView>(port),
                Err(e) => port_of(self) == Err::<u16, CookieErrorView>(e@),
            },
    {
        match self {
            Number::Signed(value) | Number::Floating(value) => {
                if 0 <= value && value <= 65535 {
                    Ok(value as u16)
                } else {
                    Err(
                        CookieError::new(
                            CookieErrorKind::PortOutOfRange,
                            signed_decimal_string(value),
                        ),
                    )
                }
            },
            Number::Unsigned(value) => {
                if value <= 65535 {
                    Ok(value as u16)
                } else {
                    Err(
                        CookieError::new(CookieErrorKind::PortOutOfRange, decimal_string(value)),
                    )
                }
            },
        }
    }
}

/// The ports of a list of numeric cells.
pub fn ports_from(numbers: &Vec<Number>) -> (r: Result<Vec<u16>, CookieError>)
    ensures
        match r {
            Ok(ports) => ports_of(numbers@) == Ok::<Seq<u16>, CookieErrorView>(ports@),
            Err(e) => ports_of(numbers@) == Err::<Seq<u16>, CookieErrorView>(e@),
        },
{
    let mut ports: Vec<u16> = Vec::new();
    let mut i: usize = 0;
    while i < numbers.len()
        invariant
            i <= numbers@.len(),
            ports_of(numbers@.take(i as int)) == Ok::<Seq<u16>, CookieErrorView>(ports@),
        decreases numbers@.len() - i,
    {
        proof {
            assert(numbers@.take(i + 1).drop_last() =~= numbers@.take(i as int));
        }
        match numbers[i].to_port() {
            Ok(port) => {
                ports.push(port);
            },
            Err(e) => {
                proof {
                    lemma_ports_error_stays(numbers@, i + 1);
                }
                return Err(e);
            },
        }
        i += 1;
    }
    assert(numbers@.take(i as int) =~= numbers@);
    Ok(ports)
}

/// Once a prefix of the cells has run into a cell that is no port, the
/// whole list fails on the same cell.
pub proof fn lemma_ports_error_stays(numbers: Seq<Number>, n: int)
    requires
        0 <= n <= numbers.len(),
        ports_of(numbers.take(n)) is Err,
    ensures
        ports_of(numbers) == ports_of(numbers.take(n)),
    decreases numbers.len() - n,
{
    if n == numbers.len() {
        assert(numbers.take(n) =~= numbers);
    } else {
        assert(numbers.take(n + 1).drop_last() =~= numbers.take(n));
        lemma_ports_error_stays(numbers, n + 1);
    }
}

/// When a native cookie expires, as far as its engine says.
#[derive(Debug, PartialEq, Eq, Hash)]
pub enum NativeExpiry {
    /// The engine reports no expiry.
    Absent,
    /// The engine reports its mark for a session cookie: a date in the
    /// distant past or future, or a timestamp kept for that purpose.
    Session,
    /// A Unix timestamp in whole seconds.
    UnixSeconds(i64),
    /// A date and time written as ISO 8601.
    Iso8601(String),
}

/// The mathematical content of a [`NativeExpiry`].
pub enum NativeExpiryView {
    Absent,
    Session,
    UnixSeconds(i64),
    Iso8601(Seq<char>),
}

impl View for NativeExpiry {
    type V = NativeExpiryView;

    open spec fn view(&self) -> NativeExpiryView {
        match self {
            NativeExpiry::Absent => NativeExpiryView::Absent,
            NativeExpiry::Session => NativeExpiryView::Session,
            NativeExpiry::UnixSeconds(timestamp) => NativeExpiryView::UnixSeconds(*timestamp),
            NativeExpiry::Iso8601(text) => NativeExpiryView::Iso8601(text@),
        }
    }
}

/// The same-site policy of a native cookie, as far as its engine says: one
/// engine names it, another numbers it.
#[derive(Debug, PartialEq, Eq, Hash)]
pub enum NativeSameSite {
    /// The engine reports no policy.
    Absent,
    /// The policy by name, in whatever case.
    Token(String),
    /// The policy by number: 0 for none, 1 for lax, 2 for strict.
    Kind(i32),
}

/// The mathematical content of a [`NativeSameSite`].
pub enum NativeSameSiteView {
    Absent,
    Token(Seq<char>),
    Kind(i32),
}

impl View for NativeSameSite {
    type V = NativeSameSiteView;

    open spec fn view(&self) -> NativeSameSiteView {
        match self {
            NativeSameSite::Absent => NativeSameSiteView::Absent,
            NativeSameSite::Token(token) => NativeSameSiteView::Token(token@),
            NativeSameSite::Kind(kind) => NativeSameSiteView::Kind(*kind),
        }
    }
}

/// One cookie as an engine holds it: every field as the engine reports it,
/// each mandatory text absent where the engine reports none. Like
/// [`Cookie`], it has no `Debug`: it holds the value.
#[derive(PartialEq, Eq, Hash)]
pub struct NativeCookie {
    pub name: Option<String>,
    pub value: Option<String>,
    pub domain: Option<String>,
    pub path: Option<String>,
    pub port_list: Option<Vec<Number>>,
    pub expires: NativeExpiry,
    pub is_http_only: bool,
    pub same_site: NativeSameSite,
    pub is_secure: bool,
    pub is_session: Option<bool>,
    pub comment: Option<String>,
    pub comment_url: Option<String>,
}

/// The mathematical content of a [`NativeCookie`].
pub struct NativeCookieView {
    pub name: Option<Seq<char>>,
    pub value: Option<Seq<char>>,
    pub domain: Option<Seq<char>>,
    pub path: Option<Seq<char>>,
    pub port_list: Option<Seq<Number>>,
    pub expires: NativeExpiryView,
    pub is_http_only: bool,
    pub same_site: NativeSameSiteView,
    pub is_secure: bool,
    pub is_session: Option<bool>,
    pub comment: Option<Seq<char>>,
    pub comment_url: Option<Seq<char>>,
}

impl View for NativeCookie {
    type V = NativeCookieView;

    open spec fn view(&self) -> NativeCookieView {
        NativeCookieView {
            name: optional_text(self.name),
            value: optional_text(self.value),
            domain: optional_text(self.domain),
            path: optional_text(self.path),
            port_list: match self.port_list {
                Some(numbers) => Some(numbers@),
                None => None,
            },
            expires: self.expires@,
            is_http_only: self.is_http_only,
            same_site: self.same_site@,
            is_secure: self.is_secure,
            is_session: self.is_session,
            comment: optional_text(self.comment),
            comment_url: optional_text(self.comment_url),
        }
    }
}

/// A letter of `A` to `Z` in lower case; any other character as it is.
pub open spec fn lower_char(c: char) -> char {
    if 'A' <= c && c <= 'Z' {
        ((c as u8) + 32u8) as char
    } else {
        c
    }
}

/// A text with its letters of `A` to `Z` in lower case.
pub open spec fn ascii_lowercase(s: Seq<char>) -> Seq<char> {
    s.map_values(|c: char| lower_char(c))
}

/// The same-site policy that a name stands for: `none`, `lax` or `strict`,
/// in whatever case it was written; no policy for any other name.
pub open spec fn same_site_named(name: Seq<char>) -> Option<Seq<char>> {
    let lower = ascii_lowercase(name);
    if lower == "none"@ {
        Some("none"@)
    } else if lower == "lax"@ {
        Some("lax"@)
    } else if lower == "strict"@ {
        Some("strict"@)
    } else {
        None
    }
}

/// The same-site policy that a number stands for.
pub open spec fn same_site_numbered(kind: i32) -> Option<Seq<char>> {
    if kind == 0 {
        Some("none"@)
    } else if kind == 1 {
        Some("lax"@)
    } else if kind == 2 {
        Some("strict"@)
    } else {
        None
    }
}

/// The policy of a cookie once normalised: absent or unknown by name is no
/// policy; a number outside the three is an error that holds the number.
pub open spec fn same_site_of(native: NativeSameSiteView) -> Result<
    Option<Seq<char>>,
    CookieErrorView,
> {
    match native {
        NativeSameSiteView::Absent => Ok(None),
        NativeSameSiteView::Token(name) => Ok(same_site_named(name)),
        NativeSameSiteView::Kind(kind) => match same_site_numbered(kind) {
            Some(token) => Ok(Some(token)),
            None => Err(
                CookieErrorView {
                    kind: CookieErrorKind::UnknownSameSite,
                    detail: signed_decimal(kind as int),
                },
            ),
        },
    }
}

/// Whether a text is one of the three same-site tokens.
pub open spec fn is_same_site_token(token: Seq<char>) -> bool {
    token == "none"@ || token == "lax"@ || token == "strict"@
}

fn lower(c: char) -> (r: char)
    ensures
        r == lower_char(c),
{
    if c >= 'A' && c <= 'Z' {
        ((c as u8) + 32u8) as char
    } else {
        c
    }
}

fn lowercase_is(name: &Vec<char>, token: &str) -> (same: bool)
    ensures
        same == (ascii_lowercase(name@) == token@),
{
    let wanted = chars_of(token);
    if name.len() != wanted.len() {
        return false;
    }
    let mut i: usize = 0;
    while i < name.len()
        invariant
            i <= name@.len(),
            name@.len() == wanted@.len(),
            wanted@ == token@,
            forall|j: int| 0 <= j < i ==> ascii_lowercase(name@)[j] == wanted@[j],
        decreases name@.len() - i,
    {
        if lower(name[i]) != wanted[i] {
            return false;
        }
        i += 1;
    }
    assert(ascii_lowercase(name@) =~= token@);
    true
}

/// The normalised same-site policy of a native cookie.
pub fn same_site_from(native: &NativeSameSite) -> (r: Result<Option<String>, CookieError>)
    ensures
        match r {
            Ok(policy) => same_site_of(native@) == Ok::<Option<Seq<char>>, CookieErrorView>(
                optional_text(policy),
            ),
            Err(e) => same_site_of(native@) == Err::<Option<Seq<char>>, CookieErrorView>(e@),
        },
        r matches Ok(Some(token)) ==> is_same_site_token(token@),
{
    match native {
        NativeSameSite::Absent => Ok(None),
        NativeSameSite::Token(name) => {
            let name = chars_of(name.as_str());
            if lowercase_is(&name, "none") {
                Ok(Some(String::from_str("none")))
            } else if lowercase_is(&name, "lax") {
                Ok(Some(String::from_str("lax")))
            } else if lowercase_is(&name, "strict") {
                Ok(Some(String::from_str("strict")))
            } else {
                Ok(None)
            }
        },
        NativeSameSite::Kind(kind) => {
            if *kind == 0 {
                Ok(Some(String::from_str("none")))
            } else if *kind == 1 {
                Ok(Some(String::from_str("lax")))
            } else if *kind == 2 {
                Ok(Some(String::from_str("strict")))
            } else {
                Err(
                    CookieError::new(
                        CookieErrorKind::UnknownSameSite,
                        signed_decimal_string(*kind as i64),
                    ),
                )
            }
        },
    }
}

/// The error for an expiry that is no point in time.
pub open spec fn invalid_expiry(detail: Seq<char>) -> CookieErrorView {
    CookieErrorView { kind: CookieErrorKind::InvalidExpiry, detail }
}

/// What a parsed date gives as an expiry: its timestamp, or an error that
/// holds the parser's description.
pub open spec fn expiry_parsed(parsed: Result<i64, Seq<char>>) -> Result<i64, CookieErrorView> {
    match parsed {
        Ok(timestamp) => Ok(timestamp),
        Err(description) => Err(invalid_expiry(description)),
    }
}

/// The expiry of a cookie once normalised, as a Unix timestamp: none where
/// the engine reports none or its mark for a session cookie; a timestamp
/// that `time` can represent as it is, any other is an error that holds it;
/// a written date by its timestamp, or an error where it does not parse.
pub open spec fn expires_of(native: NativeExpiryView) -> Result<Option<i64>, CookieErrorView> {
    match native {
        NativeExpiryView::Absent => Ok(None),
        NativeExpiryView::Session => Ok(None),
        NativeExpiryView::UnixSeconds(timestamp) => if MIN_TIMESTAMP <= timestamp
            <= MAX_TIMESTAMP {
            Ok(Some(timestamp))
        } else {
            Err(invalid_expiry(signed_decimal(timestamp as int)))
        },
        NativeExpiryView::Iso8601(text) => match expiry_parsed(iso8601_timestamp(text)) {
            Ok(timestamp) => Ok(Some(timestamp)),
            Err(e) => Err(e),
        },
    }
}

/// Whether a cookie lasts for the session only, once normalised: it does
/// where the engine reports its mark for a session cookie; else it is what
/// the engine says, if it says anything.
pub open spec fn is_session_of(expires: NativeExpiryView, reported: Option<bool>) -> Option<bool> {
    match expires {
        NativeExpiryView::Session => Some(true),
        _ => reported,
    }
}

/// What a parsed date gives as an expiry.
pub fn expiry_from_parsed(parsed: Result<i64, String>) -> (r: Result<i64, CookieError>)
    ensures
        match r {
            Ok(timestamp) => parsed == Ok::<i64, String>(timestamp),
            Err(e) => parsed is Err && e@ == invalid_expiry(parsed->Err_0@),
        },
{
    match parsed {
        Ok(timestamp) => Ok(timestamp),
        Err(description) => Err(CookieError::new(CookieErrorKind::InvalidExpiry, description)),
    }
}

/// The normalised expiry of a native cookie.
pub fn expires_from(native: &NativeExpiry) -> (r: Result<Option<i64>, CookieError>)
    ensures
        match r {
            Ok(expires) => expires_of(native@) == Ok::<Option<i64>, CookieErrorView>(expires),
            Err(e) => expires_of(native@) == Err::<Option<i64>, CookieErrorView>(e@),
        },
{
    match native {
        NativeExpiry::Absent => Ok(None),
        NativeExpiry::Session => Ok(None),
        NativeExpiry::UnixSeconds(timestamp) => {
            if timestamp_is_representable(*timestamp) {
                Ok(Some(*timestamp))
            } else {
                Err(
                    CookieError::new(
                        CookieErrorKind::InvalidExpiry,
                        signed_decimal_string(*timestamp),
                    ),
                )
            }
        },
        NativeExpiry::Iso8601(text) => match expiry_from_parsed(parse_iso8601(text.as_str())) {
            Ok(timestamp) => Ok(Some(timestamp)),
            Err(e) => Err(e),
        },
    }
}

/// The URL of a cookie's comment once normalised: none where the engine
/// reports none; else the URL as the `url` crate serialises it, or an error
/// where it does not parse.
pub open spec fn comment_url_of(native: Option<Seq<char>>) -> Result<
    Option<Seq<char>>,
    CookieErrorView,
> {
    match native {
        None => Ok(None),
        Some(text) => match url_parsed(url_parse(text)) {
            Ok(url) => Ok(Some(url)),
            Err(e) => Err(e),
        },
    }
}

/// The error for a mandatory field that the engine did not report.
pub open spec fn missing_field(field: Seq<char>) -> CookieErrorView {
    CookieErrorView { kind: CookieErrorKind::MissingField, detail: field }
}

/// The canonical cookie that a native cookie stands for. The fields are
/// read in the order in which a cookie lists them, and the first that
/// cannot be read decides the error: a mandatory text that is absent, a
/// port out of range, an expiry that is no point in time, a same-site kind
/// that is not known, a comment URL that does not parse.
pub open spec fn normalized(native: NativeCookieView) -> Result<CookieView, CookieErrorView> {
    if native.name is None {
        Err(missing_field("name"@))
    } else if native.value is None {
        Err(missing_field("value"@))
    } else if native.domain is None {
        Err(missing_field("domain"@))
    } else if native.path is None {
        Err(missing_field("path"@))
    } else if native.port_list is Some && ports_of(native.port_list->0) is Err {
        Err(ports_of(native.port_list->0)->Err_0)
    } else if expires_of(native.expires) is Err {
        Err(expires_of(native.expires)->Err_0)
    } else if same_site_of(native.same_site) is Err {
        Err(same_site_of(native.same_site)->Err_0)
    } else if comment_url_of(native.comment_url) is Err {
        Err(comment_url_of(native.comment_url)->Err_0)
    } else {
        Ok(
            CookieView {
                name: native.name->0,
                value: native.value->0,
                domain: native.domain->0,
                path: native.path->0,
                port_list: match native.port_list {
                    Some(numbers) => Some(ports_of(numbers)->Ok_0),
                    None => None,
                },
                expires: expires_of(native.expires)->Ok_0,
                is_http_only: native.is_http_only,
                same_site: same_site_of(native.same_site)->Ok_0,
                is_secure: native.is_secure,
                is_session: is_session_of(native.expires, native.is_session),
                comment: native.comment,
                comment_url: comment_url_of(native.comment_url)->Ok_0,
            },
        )
    }
}

fn mandatory(field: &Option<String>, label: &str) -> (r: Result<String, CookieError>)
    ensures
        match r {
            Ok(text) => optional_text(*field) == Some(text@),
            Err(e) => *field is None && e@ == missing_field(label@),
        },
{
    match field {
        Some(text) => Ok(text.clone()),
        None => Err(CookieError::new(CookieErrorKind::MissingField, String::from_str(label))),
    }
}

impl Cookie {
    /// Normalises a native cookie. What is read is kept exactly: name,
    /// value, domain, path and the two flags come out as they went in.
    pub fn try_from(native: &NativeCookie) -> (r: Result<Cookie, CookieError>)
        ensures
            match r {
                Ok(cookie) => normalized(native@) == Ok::<CookieView, CookieErrorView>(cookie@),
                Err(e) => normalized(native@) == Err::<CookieView, CookieErrorView>(e@),
            },
            r matches Ok(cookie) ==> {
                &&& Some(cookie@.name) == native@.name
                &&& Some(cookie@.value) == native@.value
                &&& Some(cookie@.domain) == native@.domain
                &&& Some(cookie@.path) == native@.path
                &&& cookie@.is_http_only == native@.is_http_only
                &&& cookie@.is_secure == native@.is_secure
                &&& (cookie@.same_site matches Some(token) ==> is_same_site_token(token))
            },
    {
        let name = match mandatory(&native.name, "name") {
            Ok(text) => text,
            Err(e) => {
                return Err(e);
            },
        };
        let value = match mandatory(&native.value, "value") {
            Ok(text) => text,
            Err(e) => {
                return Err(e);
            },
        };
        let domain = match mandatory(&native.domain, "domain") {
            Ok(text) => text,
            Err(e) => {
                return Err(e);
            },
        };
        let path = match mandatory(&native.path, "path") {
            Ok(text) => text,
            Err(e) => {
                return Err(e);
            },
        };
        let port_list = match &native.port_list {
            None => None,
            Some(numbers) => match ports_from(numbers) {
                Ok(ports) => Some(ports),
                Err(e) => {
                    return Err(e);
                },
            },
        };
        let expires = match expires_from(&native.expires) {
            Ok(expires) => expires,
            Err(e) => {
                return Err(e);
            },
        };
        let same_site = match same_site_from(&native.same_site) {
            Ok(policy) => policy,
            Err(e) => {
                return Err(e);
            },
        };
        let is_session = match native.expires {
            NativeExpiry::Session => Some(true),
            _ => native.is_session,
        };
        let comment_url = match &native.comment_url {
            None => None,
            Some(text) => match url_from_parsed(parse_url(text.as_str())) {
                Ok(url) => Some(url),
                Err(e) => {
                    return Err(e);
                },
            },
        };
        Ok(
            Cookie {
                name,
                value,
                domain,
                path,
                port_list,
                expires,
                is_http_only: native.is_http_only,
                same_site,
                is_secure: native.is_secure,
                is_session,
                comment: copy_optional_text(&native.comment),
                comment_url,
            },
        )
    }
}

} // verus!
