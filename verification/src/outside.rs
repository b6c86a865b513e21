//! The calls that leave the verified library: `regex`, `url` and `time`,
//! and one formatting routine of the standard library. Every contract in
//! this file is taken on trust; the rest of the crate is proved from them.

use vstd::prelude::*;

use crate::host::dotted_decimal;
use crate::host::Host;
use crate::host::HostView;

verus! {

/// What `regex::Regex::new` says against a rule: the description of the
/// fault, or `None` where the rule compiles.
pub uninterp spec fn text_rule_fault(rule: Seq<char>) -> Option<Seq<char>>;

/// Whether the regular expression compiled from `rule` finds a match
/// anywhere in `text` (`regex::Regex::is_match`).
pub uninterp spec fn text_rule_accepts(rule: Seq<char>, text: Seq<char>) -> bool;

/// What `url::Url::parse` makes of a text: the serialisation of the parsed
/// URL, or the description of the fault.
pub uninterp spec fn url_parse(text: Seq<char>) -> Result<Seq<char>, Seq<char>>;

/// What `time::OffsetDateTime::parse` makes of a text read as ISO 8601: the
/// Unix timestamp of the instant, or the description of the fault.
pub uninterp spec fn iso8601_timestamp(text: Seq<char>) -> Result<i64, Seq<char>>;

/// How `url::Host` writes an IPv6 address, given by its eight segments:
/// between square brackets, in lower-case hexadecimal, the longest run of
/// zero segments compressed.
pub uninterp spec fn ipv6_host_text(segments: Seq<u16>) -> Seq<char>;

/// How the standard library's `Debug` writes a string: quoted and escaped.
pub uninterp spec fn str_debug(s: Seq<char>) -> Seq<char>;

/// The first second that `time` can represent: midnight on 1 January of the
/// year -9999, UTC.
pub const MIN_TIMESTAMP: i64 = -377_705_116_800;

/// The last second that `time` can represent: 23:59:59 on 31 December of the
/// year 9999, UTC.
pub const MAX_TIMESTAMP: i64 = 253_402_300_799;

#[verifier::external_type_specification]
#[verifier::external_body]
pub struct ExRegex(regex::Regex);

/// A textual rule that compiled: the text of the rule and the regular
/// expression compiled from it. The two belong together: only
/// [`compile_rule`] makes a `TextRule`, and nothing changes one.
pub struct TextRule {
    source: String,
    compiled: regex::Regex,
}

impl View for TextRule {
    type V = Seq<char>;

    closed spec fn view(&self) -> Seq<char> {
        self.source@
    }
}

/// Calls `regex::Regex::new` on `source` and hands back the compiled
/// expression together with its source, or the description of the error.
/// The contract only names that outcome.
#[verifier::external_body]
pub(crate) fn compile_rule(source: &str) -> (compiled: Result<TextRule, String>)
    ensures
        match compiled {
            Ok(rule) => rule@ == source@ && text_rule_fault(source@) is None,
            Err(description) => text_rule_fault(source@) == Some(description@),
        },
{
    match regex::Regex::new(source) {
        Ok(compiled) => Ok(TextRule { source: String::from(source), compiled }),
        Err(e) => Err(e.to_string()),
    }
}

/// Calls `regex::Regex::is_match` with `text` on the compiled expression of
/// the rule. The contract only names the answer.
#[verifier::external_body]
pub(crate) fn rule_accepts(rule: &TextRule, text: &str) -> (hit: bool)
    ensures
        hit == text_rule_accepts(rule@, text@),
{
    rule.compiled.is_match(text)
}

/// Calls `clone` on the compiled expression of the rule, and on its source:
/// the copy is the same rule.
#[verifier::external_body]
pub(crate) fn copy_rule(rule: &TextRule) -> (copy: TextRule)
    ensures
        copy@ == rule@,
{
    TextRule { source: rule.source.clone(), compiled: rule.compiled.clone() }
}

/// Calls `url::Url::parse` and hands back the URL's serialisation, or the
/// description of the error. The contract only names that outcome.
#[verifier::external_body]
pub(crate) fn parse_url(text: &str) -> (parsed: Result<String, String>)
    ensures
        match parsed {
            Ok(serialisation) => url_parse(text@) == Ok::<Seq<char>, Seq<char>>(serialisation@),
            Err(description) => url_parse(text@) == Err::<Seq<char>, Seq<char>>(description@),
        },
{
    match url::Url::parse(text) {
        Ok(url) => Ok(String::from(url)),
        Err(e) => Err(e.to_string()),
    }
}

/// Calls `time::OffsetDateTime::from_unix_timestamp` and says whether it
/// accepted the timestamp. The contract claims that it accepts exactly the
/// seconds of the years -9999 to 9999, the range of `time` without its
/// `large-dates` feature.
#[verifier::external_body]
pub(crate) fn timestamp_is_representable(timestamp: i64) -> (ok: bool)
    ensures
        ok == (MIN_TIMESTAMP <= timestamp <= MAX_TIMESTAMP),
{
    time::OffsetDateTime::from_unix_timestamp(timestamp).is_ok()
}

/// Calls `time::OffsetDateTime::parse` with the ISO 8601 parsing
/// description and hands back the Unix timestamp of what was parsed, or the
/// description of the error. The contract only names that outcome.
#[verifier::external_body]
pub(crate) fn parse_iso8601(text: &str) -> (parsed: Result<i64, String>)
    ensures
        match parsed {
            Ok(timestamp) => iso8601_timestamp(text@) == Ok::<i64, Seq<char>>(timestamp),
            Err(description) => iso8601_timestamp(text@) == Err::<i64, Seq<char>>(description@),
        },
{
    let description = time::format_description::well_known::Iso8601::PARSING;
    match time::OffsetDateTime::parse(text, &description) {
        Ok(instant) => Ok(instant.unix_timestamp()),
        Err(e) => Err(e.to_string()),
    }
}

/// Has `url::Host` write a host, as its `Display` does. The contract
/// claims that a domain is written as it is and an IPv4 address in dotted
/// decimal notation; of an IPv6 address it only names the text.
#[verifier::external_body]
pub(crate) fn host_string(host: &Host) -> (text: String)
    ensures
        match host@ {
            HostView::Domain(name) => text@ == name,
            HostView::Ipv4(octets) => text@ == dotted_decimal(octets),
            HostView::Ipv6(segments) => text@ == ipv6_host_text(segments),
        },
{
    match host {
        Host::Domain(name) => url::Host::Domain(name.as_str()).to_string(),
        Host::Ipv4(octets) => url::Host::<&str>::Ipv4((*octets).into()).to_string(),
        Host::Ipv6(segments) => url::Host::<&str>::Ipv6((*segments).into()).to_string(),
    }
}

/// Has the standard library write `s` as `Debug` does, through `format!`.
/// The contract only names the text.
#[verifier::external_body]
pub(crate) fn debug_string(s: &str) -> (text: String)
    ensures
        text@ == str_debug(s@),
{
    format!("{:?}", s)
}

} // verus!
