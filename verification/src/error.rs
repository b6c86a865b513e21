//! The one error type of the library: what went wrong, and on which input.

use vstd::prelude::*;

verus! {

/// What kind of failure a [`CookieError`] reports.
#[derive(Clone, Copy, Debug, PartialEq, Eq, Hash, Structural)]
pub enum CookieErrorKind {
    /// A scheme other than `http` and `https`; the detail is the scheme.
    UnsupportedScheme,
    /// A URL without a host; the detail is the URL.
    MissingHost,
    /// A textual rule that does not compile; the detail is the compiler's
    /// description of the fault.
    InvalidPattern,
    /// A native cookie that lacks a mandatory field; the detail is the
    /// field's name.
    MissingField,
    /// A port number outside `0..=65535`; the detail is the number.
    PortOutOfRange,
    /// An expiry that is no representable point in time; the detail is the
    /// timestamp, or the parser's description of the fault.
    InvalidExpiry,
    /// A same-site kind outside the three that engines document; the detail
    /// is the kind's number.
    UnknownSameSite,
    /// A URL that does not parse; the detail is the parser's description of
    /// the fault.
    InvalidUrl,
    /// Any other failure, described by the detail alone.
    Other,
}

/// A failure to build a rule or to normalise a native cookie.
#[derive(Debug, PartialEq, Eq, Hash)]
pub struct CookieError {
    kind: CookieErrorKind,
    detail: String,
}

/// The mathematical content of a [`CookieError`].
pub struct CookieErrorView {
    pub kind: CookieErrorKind,
    pub detail: Seq<char>,
}

/// The sentence that describes an error.
pub open spec fn error_message(e: CookieErrorView) -> Seq<char> {
    match e.kind {
        CookieErrorKind::UnsupportedScheme => "scheme `"@ + e.detail + "` not supported"@,
        CookieErrorKind::MissingHost => "url \""@ + e.detail + "\" has no host"@,
        CookieErrorKind::MissingField => "field `"@ + e.detail + "` unexpectedly null"@,
        CookieErrorKind::PortOutOfRange => "port `"@ + e.detail + "` out of range"@,
        CookieErrorKind::UnknownSameSite => "same-site kind `"@ + e.detail + "` not supported"@,
        CookieErrorKind::InvalidPattern => e.detail,
        CookieErrorKind::InvalidExpiry => e.detail,
        CookieErrorKind::InvalidUrl => e.detail,
        CookieErrorKind::Other => e.detail,
    }
}

impl View for CookieError {
    type V = CookieErrorView;

    closed spec fn view(&self) -> CookieErrorView {
        CookieErrorView { kind: self.kind, detail: self.detail@ }
    }
}

impl Clone for CookieError {
    fn clone(&self) -> (copy: CookieError)
        ensures
            copy@ == self@,
    {
        CookieError { kind: self.kind, detail: self.detail.clone() }
    }
}

fn wrap(before: &str, detail: &str, after: &str) -> (r: String)
    ensures
        r@ == before@ + detail@ + after@,
{
    let mut r = String::from_str(before);
    r.append(detail);
    r.append(after);
    r
}

impl CookieError {
    /// An error of the given kind about the given input.
    pub fn new(kind: CookieErrorKind, detail: String) -> (e: CookieError)
        ensures
            e@ == (CookieErrorView { kind, detail: detail@ }),
    {
        CookieError { kind, detail }
    }

    /// An error that carries nothing but a description.
    pub fn from(message: String) -> (e: CookieError)
        ensures
            e@ == (CookieErrorView { kind: CookieErrorKind::Other, detail: message@ }),
            error_message(e@) == message@,
    {
        CookieError { kind: CookieErrorKind::Other, detail: message }
    }

    /// The kind of failure.
    pub fn kind(&self) -> (kind: CookieErrorKind)
        ensures
            kind == self@.kind,
    {
        self.kind
    }

    /// The input, or the outside description, that the failure is about.
    pub fn detail(&self) -> (detail: &str)
        ensures
            detail@ == self@.detail,
    {
        self.detail.as_str()
    }

    /// The sentence that describes the failure.
    pub fn to_string(&self) -> (message: String)
        ensures
            message@ == error_message(self@),
    {
        let detail = self.detail.as_str();
        match self.kind {
            CookieErrorKind::UnsupportedScheme => wrap("scheme `", detail, "` not supported"),
            CookieErrorKind::MissingHost => wrap("url \"", detail, "\" has no host"),
            CookieErrorKind::MissingField => wrap("field `", detail, "` unexpectedly null"),
            CookieErrorKind::PortOutOfRange => wrap("port `", detail, "` out of range"),
            CookieErrorKind::UnknownSameSite => wrap(
                "same-site kind `",
                detail,
                "` not supported",
            ),
            CookieErrorKind::InvalidPattern => String::from_str(detail),
            CookieErrorKind::InvalidExpiry => String::from_str(detail),
            CookieErrorKind::InvalidUrl => String::from_str(detail),
            CookieErrorKind::Other => String::from_str(detail),
        }
    }
}

} // verus!
