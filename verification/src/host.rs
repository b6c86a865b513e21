//! Origin rules: a host, the schemes it is allowed under, and whether its
//! subdomains count.

use vstd::prelude::*;

use crate::error::CookieError;
use crate::error::CookieErrorKind;
use crate::error::CookieErrorView;
use crate::outside::host_string;
use crate::outside::ipv6_host_text;
use crate::outside::parse_url;
use crate::outside::url_parse;
use crate::text::decimal;
use crate::text::same_text;

verus! {

/// The two schemes that a rule can allow.
#[derive(Clone, Copy, Debug, PartialEq, Eq, PartialOrd, Ord, Hash, Structural)]
pub enum CookieHostScheme {
    Http,
    Https,
}

/// The scheme that a name stands for, if it is one of the two.
pub open spec fn scheme_named(name: Seq<char>) -> Option<CookieHostScheme> {
    if name == "http"@ {
        Some(CookieHostScheme::Http)
    } else if name == "https"@ {
        Some(CookieHostScheme::Https)
    } else {
        None
    }
}

/// The name of a scheme, as it stands in a URL.
pub open spec fn scheme_name(scheme: CookieHostScheme) -> Seq<char> {
    match scheme {
        CookieHostScheme::Http => "http"@,
        CookieHostScheme::Https => "https"@,
    }
}

impl CookieHostScheme {
    /// Reads a scheme from its name. Only `http` and `https` are schemes;
    /// any other name is refused, and the error says which it was.
    pub fn try_from(scheme: &str) -> (r: Result<CookieHostScheme, CookieError>)
        ensures
            match r {
                Ok(s) => scheme_named(scheme@) == Some(s),
                Err(e) => scheme_named(scheme@) is None && e@ == (CookieErrorView {
                    kind: CookieErrorKind::UnsupportedScheme,
                    detail: scheme@,
                }),
            },
    {
        if same_text(scheme, "http") {
            Ok(CookieHostScheme::Http)
        } else if same_text(scheme, "https") {
            Ok(CookieHostScheme::Https)
        } else {
            Err(CookieError::new(CookieErrorKind::UnsupportedScheme, String::from_str(scheme)))
        }
    }

    /// The name of the scheme, as it stands in a URL.
    pub fn as_str(&self) -> (name: &'static str)
        ensures
            name@ == scheme_name(*self),
    {
        match self {
            CookieHostScheme::Http => "http",
            CookieHostScheme::Https => "https",
        }
    }

    /// The name of the scheme, as a new string.
    pub fn to_string(&self) -> (name: String)
        ensures
            name@ == scheme_name(*self),
    {
        String::from_str(self.as_str())
    }
}

/// A parsed host: a domain name, or an IP address given by its octets or
/// segments.
#[derive(Debug, PartialEq, Eq, PartialOrd, Ord, Hash)]
pub enum Host {
    /// A DNS domain name, as dot-separated labels.
    Domain(String),
    /// An IPv4 address, by its four octets.
    Ipv4([u8; 4]),
    /// An IPv6 address, by its eight segments.
    Ipv6([u16; 8]),
}

/// The mathematical content of a [`Host`].
pub enum HostView {
    Domain(Seq<char>),
    Ipv4(Seq<u8>),
    Ipv6(Seq<u16>),
}

impl View for Host {
    type V = HostView;

    open spec fn view(&self) -> HostView {
        match self {
            Host::Domain(name) => HostView::Domain(name@),
            Host::Ipv4(octets) => HostView::Ipv4(octets@),
            Host::Ipv6(segments) => HostView::Ipv6(segments@),
        }
    }
}

/// Four octets in dotted decimal notation.
pub open spec fn dotted_decimal(octets: Seq<u8>) -> Seq<char> {
    decimal(octets[0] as nat) + "."@ + decimal(octets[1] as nat) + "."@ + decimal(
        octets[2] as nat,
    ) + "."@ + decimal(octets[3] as nat)
}

/// The text of a host, as it stands in a URL and in a cookie's domain: the
/// domain name itself, an IPv4 address in dotted decimal notation, an IPv6
/// address as the `url` crate writes it.
pub open spec fn host_text(host: HostView) -> Seq<char> {
    match host {
        HostView::Domain(name) => name,
        HostView::Ipv4(octets) => dotted_decimal(octets),
        HostView::Ipv6(segments) => ipv6_host_text(segments),
    }
}

impl Clone for Host {
    fn clone(&self) -> (r: Host)
        ensures
            r@ == self@,
    {
        match self {
            Host::Domain(name) => Host::Domain(name.clone()),
            Host::Ipv4(octets) => Host::Ipv4(*octets),
            Host::Ipv6(segments) => Host::Ipv6(*segments),
        }
    }
}

impl Host {
    /// The text of the host.
    pub fn to_string(&self) -> (text: String)
        ensures
            text@ == host_text(self@),
    {
        host_string(self)
    }

    /// Whether two hosts are the same host.
    pub fn same_as(&self, other: &Host) -> (same: bool)
        ensures
            same == (self@ == other@),
    {
        match (self, other) {
            (Host::Domain(a), Host::Domain(b)) => same_text(a.as_str(), b.as_str()),
            (Host::Ipv4(a), Host::Ipv4(b)) => {
                let same = a[0] == b[0] && a[1] == b[1] && a[2] == b[2] && a[3] == b[3];
                assert(same == (a@ =~= b@));
                same
            },
            (Host::Ipv6(a), Host::Ipv6(b)) => {
                let same = a[0] == b[0] && a[1] == b[1] && a[2] == b[2] && a[3] == b[3] && a[4]
                    == b[4] && a[5] == b[5] && a[6] == b[6] && a[7] == b[7];
                assert(same == (a@ =~= b@));
                same
            },
            _ => false,
        }
    }
}

/// The set of schemes that two flags stand for.
pub open spec fn scheme_set(http: bool, https: bool) -> Set<CookieHostScheme> {
    Set::new(
        |scheme: CookieHostScheme|
            match scheme {
                CookieHostScheme::Http => http,
                CookieHostScheme::Https => https,
            },
    )
}

/// Both schemes: what a rule allows unless told otherwise.
pub open spec fn both_schemes() -> Set<CookieHostScheme> {
    scheme_set(true, true)
}

/// The mathematical content of a [`CookieHost`]: one origin rule.
pub struct RuleView {
    pub schemes: Set<CookieHostScheme>,
    pub host: HostView,
    pub matches_subdomains: bool,
}

/// One origin rule: a host, the schemes it is allowed under (never none),
/// and whether its subdomains count too.
#[derive(Debug, PartialEq, Eq, PartialOrd, Ord, Hash)]
pub struct CookieHost {
    http: bool,
    https: bool,
    host: Host,
    matches_subdomains: bool,
}

impl View for CookieHost {
    type V = RuleView;

    closed spec fn view(&self) -> RuleView {
        RuleView {
            schemes: scheme_set(self.http, self.https),
            host: self.host@,
            matches_subdomains: self.matches_subdomains,
        }
    }
}

impl Clone for CookieHost {
    fn clone(&self) -> (r: CookieHost)
        ensures
            r@ == self@,
    {
        proof {
            use_type_invariant(self);
        }
        CookieHost {
            http: self.http,
            https: self.https,
            host: self.host.clone(),
            matches_subdomains: self.matches_subdomains,
        }
    }
}

/// A URL as far as a rule reads it: its scheme, its host if it has one, and
/// its full text.
pub struct ParsedUrl {
    pub scheme: String,
    pub host: Option<Host>,
    pub text: String,
}

/// The text of an origin: scheme, `://`, host.
pub open spec fn origin_text(scheme: Seq<char>, host: Seq<char>) -> Seq<char> {
    scheme + "://"@ + host
}

/// The origin of a host under a scheme, as text.
pub fn origin(scheme: &str, host: &str) -> (text: String)
    ensures
        text@ == origin_text(scheme@, host@),
{
    let mut text = String::from_str(scheme);
    text.append("://");
    text.append(host);
    text
}

/// What a parsed URL gives: its serialisation, or an error that holds the
/// parser's description.
pub open spec fn url_parsed(parsed: Result<Seq<char>, Seq<char>>) -> Result<
    Seq<char>,
    CookieErrorView,
> {
    match parsed {
        Ok(url) => Ok(url),
        Err(description) => Err(
            CookieErrorView { kind: CookieErrorKind::InvalidUrl, detail: description },
        ),
    }
}

/// What a parsed URL gives: its serialisation, or the error that refuses
/// the text.
pub fn url_from_parsed(parsed: Result<String, String>) -> (r: Result<String, CookieError>)
    ensures
        match r {
            Ok(url) => parsed is Ok && parsed->Ok_0@ == url@,
            Err(e) => parsed is Err && e@ == (CookieErrorView {
                kind: CookieErrorKind::InvalidUrl,
                detail: parsed->Err_0@,
            }),
        },
{
    match parsed {
        Ok(url) => Ok(url),
        Err(description) => Err(CookieError::new(CookieErrorKind::InvalidUrl, description)),
    }
}

/// The URLs that a rule's origins parse to, one for each scheme of
/// `schemes` in the order `http`, `https`; the first that does not parse
/// decides.
pub open spec fn origin_urls(schemes: Set<CookieHostScheme>, host: Seq<char>) -> Result<
    Seq<Seq<char>>,
    Seq<char>,
> {
    let http = url_parse(origin_text("http"@, host));
    let https = url_parse(origin_text("https"@, host));
    if schemes.contains(CookieHostScheme::Http) && http is Err {
        Err(http->Err_0)
    } else if schemes.contains(CookieHostScheme::Https) && https is Err {
        Err(https->Err_0)
    } else {
        Ok(
            (if schemes.contains(CookieHostScheme::Http) {
                seq![http->Ok_0]
            } else {
                seq![]
            }) + (if schemes.contains(CookieHostScheme::Https) {
                seq![https->Ok_0]
            } else {
                seq![]
            }),
        )
    }
}

/// The views of a list of strings.
pub open spec fn texts(list: Seq<String>) -> Seq<Seq<char>> {
    list.map_values(|s: String| s@)
}

impl CookieHost {
    #[verifier::type_invariant]
    spec fn some_scheme(self) -> bool {
        self.http || self.https
    }

    /// A rule for `host` under both schemes, without its subdomains.
    pub fn new(host: Host) -> (rule: CookieHost)
        ensures
            rule@ == (RuleView {
                schemes: both_schemes(),
                host: host@,
                matches_subdomains: false,
            }),
    {
        CookieHost { http: true, https: true, host, matches_subdomains: false }
    }

    /// A rule for `host` under both schemes, without its subdomains.
    pub fn from(host: Host) -> (rule: CookieHost)
        ensures
            rule@ == (RuleView {
                schemes: both_schemes(),
                host: host@,
                matches_subdomains: false,
            }),
    {
        CookieHost::new(host)
    }

    /// The same rule under the given schemes, in whatever order and however
    /// often they are named. A rule is never left without a scheme: given
    /// none, it allows both.
    pub fn with_schemes(self, schemes: &[CookieHostScheme]) -> (rule: CookieHost)
        ensures
            rule@ == (RuleView {
                schemes: if schemes@.len() == 0 {
                    both_schemes()
                } else {
                    schemes@.to_set()
                },
                ..self@
            }),
            !rule@.schemes.is_empty(),
    {
        let mut http = false;
        let mut https = false;
        let mut i: usize = 0;
        while i < schemes.len()
            invariant
                i <= schemes.len(),
                http == exists|j: int| 0 <= j < i && schemes@[j] == CookieHostScheme::Http,
                https == exists|j: int| 0 <= j < i && schemes@[j] == CookieHostScheme::Https,
            decreases schemes.len() - i,
        {
            match schemes[i] {
                CookieHostScheme::Http => {
                    http = true;
                },
                CookieHostScheme::Https => {
                    https = true;
                },
            }
            i += 1;
        }
        if schemes.len() == 0 {
            http = true;
            https = true;
        } else {
            proof {
                assert(schemes@[0] == CookieHostScheme::Http || schemes@[0]
                    == CookieHostScheme::Https);
                assert forall|scheme: CookieHostScheme|
                    schemes@.to_set().contains(scheme) == scheme_set(http, https).contains(
                        scheme,
                    ) by {
                    if schemes@.to_set().contains(scheme) {
                        let j = choose|j: int| 0 <= j < schemes@.len() && schemes@[j] == scheme;
                        assert(schemes@[j] == scheme);
                    }
                    if scheme_set(http, https).contains(scheme) {
                        let j = choose|j: int| 0 <= j < schemes@.len() && schemes@[j] == scheme;
                        assert(schemes@.contains(scheme));
                    }
                }
                assert(schemes@.to_set() =~= scheme_set(http, https));
            }
        }
        let rule = CookieHost {
            http,
            https,
            host: self.host,
            matches_subdomains: self.matches_subdomains,
        };
        proof {
            if http {
                assert(rule@.schemes.contains(CookieHostScheme::Http));
            } else {
                assert(rule@.schemes.contains(CookieHostScheme::Https));
            }
        }
        rule
    }

    /// The same rule with its subdomains counted in. There is no way back.
    pub fn with_subdomains(self) -> (rule: CookieHost)
        ensures
            rule@ == (RuleView { matches_subdomains: true, ..self@ }),
    {
        proof {
            use_type_invariant(&self);
        }
        CookieHost { http: self.http, https: self.https, host: self.host, matches_subdomains: true }
    }

    /// The rule that a URL stands for: its host, under its scheme alone,
    /// without subdomains; path and query play no part. A URL without a host
    /// is refused, and the error holds the URL; then a scheme other than
    /// `http` and `https` is refused, and the error holds the scheme.
    pub fn try_from(url: ParsedUrl) -> (r: Result<CookieHost, CookieError>)
        ensures
            match r {
                Ok(rule) => url.host is Some && scheme_named(url.scheme@) is Some && rule@ == (
                RuleView {
                    schemes: set![scheme_named(url.scheme@)->0],
                    host: url.host->0@,
                    matches_subdomains: false,
                }),
                Err(e) => if url.host is None {
                    e@ == (CookieErrorView {
                        kind: CookieErrorKind::MissingHost,
                        detail: url.text@,
                    })
                } else {
                    scheme_named(url.scheme@) is None && e@ == (CookieErrorView {
                        kind: CookieErrorKind::UnsupportedScheme,
                        detail: url.scheme@,
                    })
                },
            },
    {
        let ParsedUrl { scheme, host, text } = url;
        match host {
            None => Err(CookieError::new(CookieErrorKind::MissingHost, text)),
            Some(host) => match CookieHostScheme::try_from(scheme.as_str()) {
                Err(e) => Err(e),
                Ok(scheme) => {
                    let (http, https) = match scheme {
                        CookieHostScheme::Http => (true, false),
                        CookieHostScheme::Https => (false, true),
                    };
                    assert(scheme_set(http, https) =~= set![scheme]);
                    Ok(CookieHost { http, https, host, matches_subdomains: false })
                },
            },
        }
    }

    /// The host of the rule.
    pub fn host(&self) -> (host: &Host)
        ensures
            host@ == self@.host,
    {
        &self.host
    }

    /// Whether the rule allows `scheme`.
    pub fn allows(&self, scheme: CookieHostScheme) -> (allowed: bool)
        ensures
            allowed == self@.schemes.contains(scheme),
    {
        match scheme {
            CookieHostScheme::Http => self.http,
            CookieHostScheme::Https => self.https,
        }
    }

    /// The schemes of the rule, `http` before `https`: never empty.
    pub fn schemes(&self) -> (schemes: Vec<CookieHostScheme>)
        ensures
            schemes@.to_set() == self@.schemes,
            schemes@.no_duplicates(),
            schemes@.len() >= 1,
            !self@.schemes.is_empty(),
    {
        proof {
            use_type_invariant(self);
        }
        let mut schemes: Vec<CookieHostScheme> = Vec::new();
        if self.http {
            schemes.push(CookieHostScheme::Http);
        }
        if self.https {
            schemes.push(CookieHostScheme::Https);
        }
        proof {
            assert forall|scheme: CookieHostScheme|
                schemes@.to_set().contains(scheme) == self@.schemes.contains(scheme) by {
                if self@.schemes.contains(scheme) {
                    if scheme == CookieHostScheme::Http {
                        assert(schemes@[0] == scheme);
                    } else {
                        assert(schemes@[schemes@.len() - 1] == scheme);
                    }
                }
            }
            assert(self@.schemes.contains(schemes@[0]));
        }
        schemes
    }

    /// Whether the rule counts subdomains in.
    pub fn matches_subdomains(&self) -> (flag: bool)
        ensures
            flag == self@.matches_subdomains,
    {
        self.matches_subdomains
    }

    /// Whether two rules are the same rule.
    pub fn same_as(&self, other: &CookieHost) -> (same: bool)
        ensures
            same == (self@ == other@),
    {
        let same = self.http == other.http && self.https == other.https
            && self.matches_subdomains == other.matches_subdomains && self.host.same_as(
            &other.host,
        );
        proof {
            if self@.schemes == other@.schemes {
                assert(self@.schemes.contains(CookieHostScheme::Http)
                    == other@.schemes.contains(CookieHostScheme::Http));
                assert(self@.schemes.contains(CookieHostScheme::Https)
                    == other@.schemes.contains(CookieHostScheme::Https));
            }
        }
        same
    }

    /// The URLs of the rule's origins, one for each of its schemes, `http`
    /// before `https`, each as the `url` crate serialises it. Where an
    /// origin does not parse as a URL, the error holds the parser's
    /// description.
    pub fn urls(&self) -> (r: Result<Vec<String>, CookieError>)
        ensures
            match r {
                Ok(urls) => origin_urls(self@.schemes, host_text(self@.host)) == Ok::<
                    Seq<Seq<char>>,
                    Seq<char>,
                >(texts(urls@)),
                Err(e) => origin_urls(self@.schemes, host_text(self@.host)) is Err && e@ == (
                CookieErrorView {
                    kind: CookieErrorKind::InvalidUrl,
                    detail: origin_urls(self@.schemes, host_text(self@.host))->Err_0,
                }),
            },
    {
        let host = self.host.to_string();
        let mut urls: Vec<String> = Vec::new();
        if self.http {
            match url_from_parsed(parse_url(origin("http", host.as_str()).as_str())) {
                Ok(url) => urls.push(url),
                Err(e) => {
                    return Err(e);
                },
            }
        }
        if self.https {
            match url_from_parsed(parse_url(origin("https", host.as_str()).as_str())) {
                Ok(url) => urls.push(url),
                Err(e) => {
                    return Err(e);
                },
            }
        }
        assert(texts(urls@) =~= origin_urls(self@.schemes, host_text(self@.host))->Ok_0);
        Ok(urls)
    }
}

} // verus!
