//! The canonical cookie record, the same whatever engine it was read from.

use vstd::prelude::*;

use crate::distinct::first_occurrences;
use crate::outside::debug_string;
use crate::outside::str_debug;
use crate::text::decimal;
use crate::text::push_decimal;
use crate::text::same_text;
use crate::text::signed_decimal;
use crate::text::signed_decimal_string;

verus! {

/// One cookie as it stood in an engine when it was read. `expires` is a
/// Unix timestamp in seconds; `same_site`, where present, is one of `none`,
/// `lax` and `strict`.
///
/// The type has no `Debug`: the value of a cookie is a secret, and the only
/// text that the library makes of a cookie, [`Cookie::to_string`], leaves it
/// out.
#[derive(PartialEq, Eq, PartialOrd, Ord, Hash)]
#[non_exhaustive]
pub struct Cookie {
    pub name: String,
    pub value: String,
    pub domain: String,
    pub path: String,
    pub port_list: Option<Vec<u16>>,
    pub expires: Option<i64>,
    pub is_http_only: bool,
    pub same_site: Option<String>,
    pub is_secure: bool,
    pub is_session: Option<bool>,
    pub comment: Option<String>,
    pub comment_url: Option<String>,
}

/// The mathematical content of a [`Cookie`].
pub struct CookieView {
    pub name: Seq<char>,
    pub value: Seq<char>,
    pub domain: Seq<char>,
    pub path: Seq<char>,
    pub port_list: Option<Seq<u16>>,
    pub expires: Option<i64>,
    pub is_http_only: bool,
    pub same_site: Option<Seq<char>>,
    pub is_secure: bool,
    pub is_session: Option<bool>,
    pub comment: Option<Seq<char>>,
    pub comment_url: Option<Seq<char>>,
}

/// The characters of a string that may be absent.
pub open spec fn optional_text(s: Option<String>) -> Option<Seq<char>> {
    match s {
        Some(s) => Some(s@),
        None => None,
    }
}

impl View for Cookie {
    type V = CookieView;

    open spec fn view(&self) -> CookieView {
        CookieView {
            name: self.name@,
            value: self.value@,
            domain: self.domain@,
            path: self.path@,
            port_list: match self.port_list {
                Some(ports) => Some(ports@),
                None => None,
            },
            expires: self.expires,
            is_http_only: self.is_http_only,
            same_site: optional_text(self.same_site),
            is_secure: self.is_secure,
            is_session: self.is_session,
            comment: optional_text(self.comment),
            comment_url: optional_text(self.comment_url),
        }
    }
}

/// A copy of a string that may be absent.
pub fn copy_optional_text(s: &Option<String>) -> (copy: Option<String>)
    ensures
        optional_text(copy) == optional_text(*s),
{
    match s {
        Some(s) => Some(s.clone()),
        None => None,
    }
}

fn copy_ports(ports: &Vec<u16>) -> (copy: Vec<u16>)
    ensures
        copy@ == ports@,
{
    let mut copy: Vec<u16> = Vec::new();
    let mut i: usize = 0;
    while i < ports.len()
        invariant
            i <= ports@.len(),
            copy@ == ports@.take(i as int),
        decreases ports@.len() - i,
    {
        copy.push(ports[i]);
        i += 1;
    }
    copy
}

impl Clone for Cookie {
    fn clone(&self) -> (copy: Cookie)
        ensures
            copy@ == self@,
    {
        Cookie {
            name: self.name.clone(),
            value: self.value.clone(),
            domain: self.domain.clone(),
            path: self.path.clone(),
            port_list: match &self.port_list {
                Some(ports) => Some(copy_ports(ports)),
                None => None,
            },
            expires: self.expires,
            is_http_only: self.is_http_only,
            same_site: copy_optional_text(&self.same_site),
            is_secure: self.is_secure,
            is_session: self.is_session,
            comment: copy_optional_text(&self.comment),
            comment_url: copy_optional_text(&self.comment_url),
        }
    }
}

/// The views of a list of cookies.
pub open spec fn cookie_views(cookies: Seq<Cookie>) -> Seq<CookieView> {
    cookies.map_values(|cookie: Cookie| cookie@)
}

fn same_optional_text(first: &Option<String>, second: &Option<String>) -> (same: bool)
    ensures
        same == (optional_text(*first) == optional_text(*second)),
{
    match (first, second) {
        (Some(a), Some(b)) => same_text(a.as_str(), b.as_str()),
        (None, None) => true,
        _ => false,
    }
}

fn same_ports(first: &Vec<u16>, second: &Vec<u16>) -> (same: bool)
    ensures
        same == (first@ == second@),
{
    if first.len() != second.len() {
        return false;
    }
    let mut i: usize = 0;
    while i < first.len()
        invariant
            i <= first@.len(),
            first@.len() == second@.len(),
            forall|j: int| 0 <= j < i ==> first@[j] == second@[j],
        decreases first@.len() - i,
    {
        if first[i] != second[i] {
            return false;
        }
        i += 1;
    }
    assert(first@ =~= second@);
    true
}

impl Cookie {
    /// Whether two cookies are the same cookie: equal in every field.
    pub fn same_as(&self, other: &Cookie) -> (same: bool)
        ensures
            same == (self@ == other@),
    {
        let ports = match (&self.port_list, &other.port_list) {
            (Some(a), Some(b)) => same_ports(a, b),
            (None, None) => true,
            _ => false,
        };
        let expires = match (self.expires, other.expires) {
            (Some(a), Some(b)) => a == b,
            (None, None) => true,
            _ => false,
        };
        let session = match (self.is_session, other.is_session) {
            (Some(a), Some(b)) => a == b,
            (None, None) => true,
            _ => false,
        };
        ports && expires && session && self.is_http_only == other.is_http_only && self.is_secure
            == other.is_secure && same_text(self.name.as_str(), other.name.as_str()) && same_text(
            self.value.as_str(),
            other.value.as_str(),
        ) && same_text(self.domain.as_str(), other.domain.as_str()) && same_text(
            self.path.as_str(),
            other.path.as_str(),
        ) && same_optional_text(&self.same_site, &other.same_site) && same_optional_text(
            &self.comment,
            &other.comment,
        ) && same_optional_text(&self.comment_url, &other.comment_url)
    }
}

fn holds(cookies: &Vec<Cookie>, cookie: &Cookie) -> (found: bool)
    ensures
        found == cookie_views(cookies@).contains(cookie@),
{
    let mut i: usize = 0;
    while i < cookies.len()
        invariant
            i <= cookies@.len(),
            forall|j: int| 0 <= j < i ==> cookie_views(cookies@)[j] != cookie@,
        decreases cookies@.len() - i,
    {
        if cookies[i].same_as(cookie) {
            assert(cookie_views(cookies@)[i as int] == cookie@);
            return true;
        }
        i += 1;
    }
    false
}

/// The cookies of a list, each once: an engine that is asked origin by
/// origin may report the same cookie more than once. A cookie stays where
/// it first stands.
pub fn distinct(cookies: Vec<Cookie>) -> (once: Vec<Cookie>)
    ensures
        cookie_views(once@) == first_occurrences(cookie_views(cookies@)),
{
    let ghost given = cookie_views(cookies@);
    let mut once: Vec<Cookie> = Vec::new();
    for cookie in it: cookies
        invariant
            cookie_views(it.seq()) == given,
            cookie_views(once@) == first_occurrences(given.take(it.index() as int)),
    {
        proof {
            let upto = given.take(it.index() + 1);
            assert(upto.drop_last() =~= given.take(it.index() as int));
        }
        if !holds(&once, &cookie) {
            once.push(cookie);
        }
    }
    assert(given.take(given.len() as int) =~= given);
    once
}

/// Port numbers in decimal, separated by a comma and a space.
pub open spec fn ports_text(ports: Seq<u16>) -> Seq<char>
    decreases ports.len(),
{
    if ports.len() == 0 {
        Seq::empty()
    } else if ports.len() == 1 {
        decimal(ports[0] as nat)
    } else {
        ports_text(ports.drop_last()) + ", "@ + decimal(ports.last() as nat)
    }
}

/// How a truth value is written.
pub open spec fn bool_text(b: bool) -> Seq<char> {
    if b {
        "true"@
    } else {
        "false"@
    }
}

/// One more field of the text of a cookie: a comma, the label, a colon and
/// what the field holds.
pub open spec fn field_text(label: Seq<char>, content: Seq<char>) -> Seq<char> {
    ", "@ + label + ": "@ + content
}

/// A field that is written only where it is present.
pub open spec fn optional_field_text(label: Seq<char>, content: Option<Seq<char>>) -> Seq<char> {
    match content {
        Some(content) => field_text(label, content),
        None => Seq::empty(),
    }
}

/// What stands for a quoted string that may be absent.
pub open spec fn optional_debug(s: Option<Seq<char>>) -> Option<Seq<char>> {
    match s {
        Some(s) => Some(str_debug(s)),
        None => None,
    }
}

/// The text of a cookie: its fields by name, strings quoted as `Debug`
/// quotes them, absent fields and an empty port list left out, the session
/// flag as `None`, `Some(true)` or `Some(false)`, and `<...>` in place of
/// the value.
pub open spec fn cookie_text(cookie: CookieView) -> Seq<char> {
    "Cookie { name: "@ + str_debug(cookie.name) + field_text("value"@, "<...>"@) + field_text(
        "domain"@,
        str_debug(cookie.domain),
    ) + field_text("path"@, str_debug(cookie.path)) + optional_field_text(
        "port_list"@,
        match cookie.port_list {
            Some(ports) => if ports.len() == 0 {
                None
            } else {
                Some("["@ + ports_text(ports) + "]"@)
            },
            None => None,
        },
    ) + optional_field_text(
        "expires"@,
        match cookie.expires {
            Some(timestamp) => Some(signed_decimal(timestamp as int)),
            None => None,
        },
    ) + field_text("is_http_only"@, bool_text(cookie.is_http_only)) + optional_field_text(
        "same_site"@,
        optional_debug(cookie.same_site),
    ) + field_text("is_secure"@, bool_text(cookie.is_secure)) + field_text(
        "is_session"@,
        match cookie.is_session {
            Some(flag) => "Some("@ + bool_text(flag) + ")"@,
            None => "None"@,
        },
    ) + optional_field_text("comment"@, optional_debug(cookie.comment)) + optional_field_text(
        "comment_url"@,
        optional_debug(cookie.comment_url),
    ) + ", .. }"@
}

/// Appends the decimal notation of each port to `out`, with a comma and a
/// space between two of them.
pub fn push_ports(ports: &Vec<u16>, out: &mut String)
    ensures
        final(out)@ == old(out)@ + ports_text(ports@),
{
    let mut i: usize = 0;
    while i < ports.len()
        invariant
            i <= ports@.len(),
            out@ == old(out)@ + ports_text(ports@.take(i as int)),
        decreases ports@.len() - i,
    {
        if i > 0 {
            out.append(", ");
        }
        push_decimal(ports[i] as u64, out);
        proof {
            let upto = ports@.take(i + 1);
            assert(upto.drop_last() =~= ports@.take(i as int));
        }
        i += 1;
    }
    assert(ports@.take(i as int) =~= ports@);
}

/// Appends one field to the text of a cookie.
pub fn push_field(out: &mut String, label: &str, content: &str)
    ensures
        final(out)@ == old(out)@ + field_text(label@, content@),
{
    out.append(", ");
    out.append(label);
    out.append(": ");
    out.append(content);
}

fn push_quoted_field(out: &mut String, label: &str, content: &Option<String>)
    ensures
        final(out)@ == old(out)@ + optional_field_text(
            label@,
            optional_debug(optional_text(*content)),
        ),
{
    match content {
        Some(content) => {
            let quoted = debug_string(content.as_str());
            push_field(out, label, quoted.as_str());
        },
        None => {},
    }
}

fn bool_str(b: bool) -> (text: &'static str)
    ensures
        text@ == bool_text(b),
{
    if b {
        "true"
    } else {
        "false"
    }
}

impl Cookie {
    /// The text of the cookie, for logs and messages. The value is not in
    /// it: `<...>` stands in its place.
    pub fn to_string(&self) -> (text: String)
        ensures
            text@ == cookie_text(self@),
    {
        let mut text = String::from_str("Cookie { name: ");
        text.append(debug_string(self.name.as_str()).as_str());
        push_field(&mut text, "value", "<...>");
        push_field(&mut text, "domain", debug_string(self.domain.as_str()).as_str());
        push_field(&mut text, "path", debug_string(self.path.as_str()).as_str());
        match &self.port_list {
            Some(ports) => {
                if ports.len() > 0 {
                    let mut list = String::from_str("[");
                    push_ports(ports, &mut list);
                    list.append("]");
                    push_field(&mut text, "port_list", list.as_str());
                }
            },
            None => {},
        }
        match self.expires {
            Some(timestamp) => {
                push_field(&mut text, "expires", signed_decimal_string(timestamp).as_str());
            },
            None => {},
        }
        push_field(&mut text, "is_http_only", bool_str(self.is_http_only));
        push_quoted_field(&mut text, "same_site", &self.same_site);
        push_field(&mut text, "is_secure", bool_str(self.is_secure));
        match self.is_session {
            Some(flag) => {
                let mut session = String::from_str("Some(");
                session.append(bool_str(flag));
                session.append(")");
                push_field(&mut text, "is_session", session.as_str());
            },
            None => {
                push_field(&mut text, "is_session", "None");
            },
        }
        push_quoted_field(&mut text, "comment", &self.comment);
        push_quoted_field(&mut text, "comment_url", &self.comment_url);
        text.append(", .. }");
        text
    }
}

} // verus!
