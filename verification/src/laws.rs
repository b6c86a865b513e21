//! What holds of every pattern, of every normalised cookie and of every
//! enumeration and deletion, stated over the same spec functions as the
//! contracts of the library and proved from them.

use vstd::prelude::*;

use crate::cookie::cookie_text;
use crate::cookie::CookieView;
use crate::error::CookieErrorView;
use crate::host::both_schemes;
use crate::host::CookieHostScheme;
use crate::host::host_text;
use crate::host::HostView;
use crate::host::origin_text;
use crate::host::RuleView;
use crate::host::scheme_name;
use crate::host::scheme_named;
use crate::jar::gathered;
use crate::jar::kept;
use crate::jar::next_hit;
use crate::jar::selection;
use crate::jar::with_found;
use crate::native::is_same_site_token;
use crate::native::NativeCookieView;
use crate::native::normalized;
use crate::outside::text_rule_accepts;
use crate::outside::text_rule_fault;
use crate::pattern::BuilderView;
use crate::pattern::built;
use crate::pattern::host_covers;
use crate::pattern::hosts_pattern;
use crate::pattern::pattern_matches;
use crate::pattern::PatternView;
use crate::pattern::rule_matches;
use crate::pattern::subdomain_name;

verus! {

/// A scheme is read back from its own name, and only `http` and `https`
/// name a scheme.
pub proof fn law_scheme_names(scheme: CookieHostScheme, name: Seq<char>)
    ensures
        scheme_named(scheme_name(scheme)) == Some(scheme),
        scheme_named(name) is Some ==> scheme_name(scheme_named(name)->0) == name,
{
    reveal_strlit("http");
    reveal_strlit("https");
    assert("http"@.len() == 4);
    assert("https"@.len() == 5);
}

/// Normalising keeps what it reads: name, value, domain, path and the two
/// flags of the canonical cookie are those of the native one, and its
/// same-site policy, where it has one, is `none`, `lax` or `strict`.
pub proof fn law_normalising_keeps_fields(native: NativeCookieView)
    requires
        normalized(native) is Ok,
    ensures
        ({
            let cookie = normalized(native)->Ok_0;
            &&& native.name == Some(cookie.name)
            &&& native.value == Some(cookie.value)
            &&& native.domain == Some(cookie.domain)
            &&& native.path == Some(cookie.path)
            &&& native.is_http_only == cookie.is_http_only
            &&& native.is_secure == cookie.is_secure
            &&& (cookie.same_site matches Some(token) ==> is_same_site_token(token))
        }),
{
}

/// The rule that `CookieHost::new` makes for a host: both schemes, no
/// subdomains.
pub open spec fn plain_rule(host: HostView) -> RuleView {
    RuleView { schemes: both_schemes(), host, matches_subdomains: false }
}

/// The pattern that is built from one rule alone.
pub open spec fn single_rule_pattern(rule: RuleView) -> PatternView {
    PatternView::Hosts(set![rule])
}

/// A list of one rule builds the pattern of that rule alone, and building
/// it never fails.
pub proof fn law_single_rule_builds(rule: RuleView)
    ensures
        built(BuilderView { hosts: Some(seq![rule]), rule: None }) == Ok::<
            PatternView,
            CookieErrorView,
        >(single_rule_pattern(rule)),
{
    assert(seq![rule].to_set() =~= set![rule]) by {
        assert(seq![rule][0] == rule);
        assert forall|other: RuleView| seq![rule].to_set().contains(other) implies other
            == rule by {
            let i = choose|i: int| 0 <= i < seq![rule].len() && seq![rule][i] == other;
        }
    }
}

/// A pattern of one rule matches exactly what the rule matches.
pub proof fn law_single_rule_decides(rule: RuleView, domain: Seq<char>, is_secure: bool)
    ensures
        pattern_matches(single_rule_pattern(rule), domain, is_secure) == rule_matches(
            rule,
            domain,
            is_secure,
        ),
{
    if rule_matches(rule, domain, is_secure) {
        assert(set![rule].contains(rule));
    }
}

/// A rule without subdomains matches its own host and nothing that merely
/// ends in it: not the host with anything at all written before it.
pub proof fn law_plain_rule_is_exact(host: HostView, before: Seq<char>, is_secure: bool)
    requires
        before.len() > 0,
    ensures
        pattern_matches(single_rule_pattern(plain_rule(host)), host_text(host), is_secure),
        !pattern_matches(
            single_rule_pattern(plain_rule(host)),
            before + host_text(host),
            is_secure,
        ),
{
    let rule = plain_rule(host);
    law_single_rule_decides(rule, host_text(host), is_secure);
    law_single_rule_decides(rule, before + host_text(host), is_secure);
    assert(rule.schemes.contains(CookieHostScheme::Https));
    assert((before + host_text(host)).len() != host_text(host).len());
}

/// For every host, the pattern built from `CookieHost::new(host)` matches a
/// secure cookie of exactly that host, and does not match one whose domain
/// is `evil-` followed by the host.
pub proof fn law_exact_host_and_evil_twin(host: HostView)
    ensures
        pattern_matches(single_rule_pattern(plain_rule(host)), host_text(host), true),
        !pattern_matches(
            single_rule_pattern(plain_rule(host)),
            "evil-"@ + host_text(host),
            true,
        ),
{
    reveal_strlit("evil-");
    assert("evil-"@.len() == 5);
    law_plain_rule_is_exact(host, "evil-"@, true);
}

/// With subdomains counted in, a rule covers its host and every name that
/// ends in a dot and the host; it covers nothing else, and in particular no
/// name in which some other character stands before the host.
pub proof fn law_subdomains(host: Seq<char>, label: Seq<char>, before: Seq<char>)
    requires
        before.len() > 0,
        before.last() != '.',
    ensures
        host_covers(host, true, host),
        host_covers(host, true, subdomain_name(label, host)),
        !host_covers(host, false, subdomain_name(label, host)),
        !host_covers(host, true, before + host),
{
    assert(subdomain_name(label, host).len() == label.len() + 1 + host.len());
    let name = before + host;
    if host_covers(host, true, name) {
        let other = choose|other: Seq<char>| name == #[trigger] subdomain_name(other, host);
        assert(name[before.len() - 1] == before.last());
        assert(subdomain_name(other, host)[other.len() as int] == '.');
        assert(name.len() == other.len() + 1 + host.len());
    }
}

/// Only a secure cookie is held to the schemes: a rule matches a secure
/// cookie of its host exactly when it allows `https`, and a cookie that is
/// not secure whatever its schemes are.
pub proof fn law_scheme_gate(rule: RuleView, domain: Seq<char>)
    ensures
        rule_matches(rule, host_text(rule.host), true) == rule.schemes.contains(
            CookieHostScheme::Https,
        ),
        rule_matches(rule, host_text(rule.host), false),
        rule_matches(rule, domain, false) == host_covers(
            host_text(rule.host),
            rule.matches_subdomains,
            domain,
        ),
        rule_matches(rule, domain, true) ==> rule_matches(rule, domain, false),
{
}

/// A builder with nothing chosen builds the pattern that matches every
/// cookie, whatever its domain, the empty one too, and whether it is secure
/// or not. So does a builder with an empty list of rules.
pub proof fn law_empty_pattern_matches_all(domain: Seq<char>, is_secure: bool)
    ensures
        built(BuilderView { hosts: None, rule: None }) == Ok::<PatternView, CookieErrorView>(
            PatternView::Any,
        ),
        built(BuilderView { hosts: Some(Seq::empty()), rule: None }) == Ok::<
            PatternView,
            CookieErrorView,
        >(PatternView::Any),
        pattern_matches(PatternView::Any, domain, is_secure),
{
}

/// The order of the rules, and how often each is named, is nothing to the
/// pattern: two lists with the same rules build the same pattern.
pub proof fn law_rules_commute(first: Seq<RuleView>, second: Seq<RuleView>)
    requires
        first.to_set() == second.to_set(),
    ensures
        hosts_pattern(Some(first)) == hosts_pattern(Some(second)),
{
    if first.len() > 0 {
        assert(first.to_set().contains(first[0])) by {
            assert(first.contains(first[0]));
        }
        let i = choose|i: int| 0 <= i < second.len() && second[i] == first[0];
    }
    if second.len() > 0 {
        assert(second.to_set().contains(second[0])) by {
            assert(second.contains(second[0]));
        }
        let i = choose|i: int| 0 <= i < first.len() && first[i] == second[0];
    }
}

/// Any one matching rule is enough: the rules of two sets together match
/// what the one set matches or the other.
pub proof fn law_any_rule_suffices(
    first: Set<RuleView>,
    second: Set<RuleView>,
    domain: Seq<char>,
    is_secure: bool,
)
    ensures
        pattern_matches(PatternView::Hosts(first.union(second)), domain, is_secure) == (
        pattern_matches(PatternView::Hosts(first), domain, is_secure) || pattern_matches(
            PatternView::Hosts(second),
            domain,
            is_secure,
        )),
{
    if pattern_matches(PatternView::Hosts(first), domain, is_secure) {
        let rule = choose|rule: RuleView|
            first.contains(rule) && #[trigger] rule_matches(rule, domain, is_secure);
        assert(first.union(second).contains(rule));
    }
    if pattern_matches(PatternView::Hosts(second), domain, is_secure) {
        let rule = choose|rule: RuleView|
            second.contains(rule) && #[trigger] rule_matches(rule, domain, is_secure);
        assert(first.union(second).contains(rule));
    }
    if pattern_matches(PatternView::Hosts(first.union(second)), domain, is_secure) {
        let rule = choose|rule: RuleView|
            first.union(second).contains(rule) && #[trigger] rule_matches(
                rule,
                domain,
                is_secure,
            );
        assert(first.contains(rule) || second.contains(rule));
    }
}

/// A textual rule that does not compile is refused when the pattern is
/// built, with the compiler's description; one that compiles is accepted.
pub proof fn law_malformed_rule_fails_at_build(rule: Seq<char>)
    ensures
        built(BuilderView { hosts: None, rule: Some(rule) }) is Err
            <==> text_rule_fault(rule) is Some,
        built(BuilderView { hosts: None, rule: Some(rule) }) is Ok ==> built(
            BuilderView { hosts: None, rule: Some(rule) },
        )->Ok_0 == PatternView::Text(rule),
{
}

/// The text of a cookie says nothing of its value: two cookies that differ
/// in their values alone have the same text.
pub proof fn law_text_hides_value(first: CookieView, second: CookieView)
    requires
        second == (CookieView { value: second.value, ..first }),
    ensures
        cookie_text(first) == cookie_text(second),
{
}

/// A textual rule is shown the `https` origin of every cookie and the
/// `http` origin of a cookie that is not secure, never the `http` origin of
/// a secure one; so whatever it matches as secure it matches as not secure.
pub proof fn law_text_rule_origins(rule: Seq<char>, domain: Seq<char>)
    ensures
        pattern_matches(PatternView::Text(rule), domain, true) == text_rule_accepts(
            rule,
            origin_text("https"@, domain),
        ),
        pattern_matches(PatternView::Text(rule), domain, false) == (text_rule_accepts(
            rule,
            origin_text("https"@, domain),
        ) || text_rule_accepts(rule, origin_text("http"@, domain))),
        pattern_matches(PatternView::Text(rule), domain, true) ==> pattern_matches(
            PatternView::Text(rule),
            domain,
            false,
        ),
{
}

/// Enumerating is a function of the pattern and of the cookies listed: two
/// enumerations of the same cookies under the same pattern give the same
/// cookies in the same order, and so the same set, or the same error.
pub proof fn law_enumeration_repeats(
    pattern: PatternView,
    natives: Seq<NativeCookieView>,
    first: Result<Seq<CookieView>, CookieErrorView>,
    second: Result<Seq<CookieView>, CookieErrorView>,
)
    requires
        first == gathered(pattern, natives),
        second == gathered(pattern, natives),
    ensures
        first == second,
        first is Ok ==> first->Ok_0.to_set() == second->Ok_0.to_set(),
{
}

/// Once a deletion has gone through, no cookie that the pattern selects is
/// left: enumerating what is kept, under the same pattern, gives nothing.
pub proof fn law_deleted_are_gone(pattern: PatternView, natives: Seq<NativeCookieView>)
    requires
        gathered(pattern, natives) is Ok,
    ensures
        gathered(pattern, kept(pattern, natives)) == Ok::<Seq<CookieView>, CookieErrorView>(
            Seq::empty(),
        ),
    decreases natives.len(),
{
    if natives.len() > 0 {
        let rest = natives.drop_first();
        law_deleted_are_gone(pattern, rest);
        if selection(pattern, natives[0]) is None {
            let left = kept(pattern, natives);
            assert(left[0] == natives[0]);
            assert(left.drop_first() =~= kept(pattern, rest));
        }
    }
}

/// A deletion that has gone through removes exactly the cookies it hands
/// back: every cookie listed was either kept or handed back, and a cookie
/// is kept exactly where the pattern does not select it.
pub proof fn law_deletion_is_exact(pattern: PatternView, natives: Seq<NativeCookieView>)
    requires
        gathered(pattern, natives) is Ok,
    ensures
        kept(pattern, natives).len() + gathered(pattern, natives)->Ok_0.len() == natives.len(),
        kept(pattern, natives) == natives.filter(
            |native: NativeCookieView| selection(pattern, native) is None,
        ),
    decreases natives.len(),
{
    let unselected = |native: NativeCookieView| selection(pattern, native) is None;
    if natives.len() == 0 {
        assert(natives.filter(unselected) =~= Seq::<NativeCookieView>::empty()) by {
            reveal(Seq::filter);
        }
    } else {
        let rest = natives.drop_first();
        law_deletion_is_exact(pattern, rest);
        assert(natives =~= seq![natives[0]] + rest);
        Seq::filter_distributes_over_add(seq![natives[0]], rest, unselected);
        assert(seq![natives[0]].filter(unselected) =~= if unselected(natives[0]) {
            seq![natives[0]]
        } else {
            Seq::<NativeCookieView>::empty()
        }) by {
            reveal(Seq::filter);
            assert(seq![natives[0]].drop_last() =~= Seq::<NativeCookieView>::empty());
            assert(Seq::<NativeCookieView>::empty().filter(unselected) =~= Seq::<
                NativeCookieView,
            >::empty());
        }
    }
}

/// Where deleting ran into an error, the cookie at fault and all that
/// follows it are still there, in their order.
pub proof fn law_failed_deletion_keeps_the_rest(
    pattern: PatternView,
    natives: Seq<NativeCookieView>,
)
    requires
        gathered(pattern, natives) is Err,
    ensures
        exists|at: int|
            0 <= at < natives.len() && #[trigger] selection(pattern, natives[at]) == Some(
                Err::<CookieView, CookieErrorView>(gathered(pattern, natives)->Err_0),
            ) && natives.skip(at).is_suffix_of(kept(pattern, natives)),
    decreases natives.len(),
{
    let left = kept(pattern, natives);
    match selection(pattern, natives[0]) {
        Some(Err(e)) => {
            assert(natives.skip(0) =~= natives);
            assert(left.skip(0) =~= left);
            assert(selection(pattern, natives[0]) == Some(
                Err::<CookieView, CookieErrorView>(gathered(pattern, natives)->Err_0),
            ));
        },
        _ => {
            let rest = natives.drop_first();
            law_failed_deletion_keeps_the_rest(pattern, rest);
            let at = choose|at: int|
                0 <= at < rest.len() && #[trigger] selection(pattern, rest[at]) == Some(
                    Err::<CookieView, CookieErrorView>(gathered(pattern, rest)->Err_0),
                ) && rest.skip(at).is_suffix_of(kept(pattern, rest));
            assert(rest[at] == natives[at + 1]);
            assert(rest.skip(at) =~= natives.skip(at + 1));
            let tail = natives.skip(at + 1);
            let inner = kept(pattern, rest);
            assert(tail =~= inner.skip(inner.len() - tail.len()));
            assert(tail =~= left.skip(left.len() - tail.len()));
            assert(selection(pattern, natives[at + 1]) == Some(
                Err::<CookieView, CookieErrorView>(gathered(pattern, natives)->Err_0),
            ));
        },
    }
}

/// A pass hands out what enumerating gathers: where no cookie from `from`
/// on is selected, the rest of the list gathers nothing; else it gathers
/// what the next selected cookie gives, followed by what the list gathers
/// after it, and an error ends it.
pub proof fn law_scan_agrees(pattern: PatternView, natives: Seq<NativeCookieView>, from: int)
    requires
        0 <= from <= natives.len(),
    ensures
        ({
            let hit = next_hit(pattern, natives, from);
            &&& from <= hit <= natives.len()
            &&& forall|i: int| from <= i < hit ==> selection(pattern, #[trigger] natives[i]) is None
            &&& hit < natives.len() ==> selection(pattern, natives[hit]) is Some
            &&& gathered(pattern, natives.skip(from)) == if hit >= natives.len() {
                Ok::<Seq<CookieView>, CookieErrorView>(Seq::empty())
            } else {
                match selection(pattern, natives[hit])->0 {
                    Err(e) => Err(e),
                    Ok(cookie) => with_found(
                        seq![cookie],
                        gathered(pattern, natives.skip(hit + 1)),
                    ),
                }
            }
        }),
    decreases natives.len() - from,
{
    if from < natives.len() {
        let rest = natives.skip(from);
        assert(rest[0] == natives[from]);
        assert(rest.drop_first() =~= natives.skip(from + 1));
        if selection(pattern, natives[from]) is None {
            law_scan_agrees(pattern, natives, from + 1);
        }
    }
}

} // verus!
