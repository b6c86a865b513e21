//! Cookie patterns: a predicate over a cookie's domain and secure flag,
//! compiled from origin rules or from a textual rule, and its builder.

use vstd::prelude::*;

use crate::distinct::first_occurrences;
use crate::distinct::lemma_first_occurrences;
use crate::error::CookieError;
use crate::error::CookieErrorKind;
use crate::error::CookieErrorView;
use crate::host::CookieHost;
use crate::host::CookieHostScheme;
use crate::host::host_text;
use crate::host::origin;
use crate::host::origin_text;
use crate::host::RuleView;
use crate::outside::compile_rule;
use crate::outside::copy_rule;
use crate::outside::rule_accepts;
use crate::outside::text_rule_accepts;
use crate::outside::text_rule_fault;
use crate::outside::TextRule;
use crate::text::chars_of;

verus! {

/// The name of the subdomain `label` of `host`: label, dot, host.
pub open spec fn subdomain_name(label: Seq<char>, host: Seq<char>) -> Seq<char> {
    label + seq!['.'] + host
}

/// Whether a rule's host covers a cookie's domain: the domain is the host
/// itself, or, where subdomains count, anything followed by a dot and the
/// host.
pub open spec fn host_covers(host: Seq<char>, subdomains: bool, domain: Seq<char>) -> bool {
    domain == host || (subdomains && exists|label: Seq<char>|
        domain == #[trigger] subdomain_name(label, host))
}

/// Whether one rule matches a cookie: its host covers the cookie's domain,
/// and a secure cookie needs `https` among the rule's schemes. A cookie
/// that is not secure passes under any schemes.
pub open spec fn rule_matches(rule: RuleView, domain: Seq<char>, is_secure: bool) -> bool {
    host_covers(host_text(rule.host), rule.matches_subdomains, domain) && (is_secure
        ==> rule.schemes.contains(CookieHostScheme::Https))
}

/// What a textual rule decides, given what it said to the cookie's `https`
/// origin and to its `http` origin: the `http` origin speaks only for a
/// cookie that is not secure.
pub open spec fn text_verdict(https_hit: bool, http_hit: bool, is_secure: bool) -> bool {
    https_hit || (!is_secure && http_hit)
}

/// The mathematical content of a [`CookiePattern`]: one of three modes.
pub enum PatternView {
    /// Matches every cookie.
    Any,
    /// Matches what any one of the rules matches.
    Hosts(Set<RuleView>),
    /// Matches by a textual rule, applied to the cookie's origins.
    Text(Seq<char>),
}

/// Whether a pattern matches a cookie with the given domain and secure
/// flag.
pub open spec fn pattern_matches(pattern: PatternView, domain: Seq<char>, is_secure: bool) -> bool {
    match pattern {
        PatternView::Any => true,
        PatternView::Hosts(rules) => exists|rule: RuleView|
            rules.contains(rule) && #[trigger] rule_matches(rule, domain, is_secure),
        PatternView::Text(rule) => text_verdict(
            text_rule_accepts(rule, origin_text("https"@, domain)),
            text_rule_accepts(rule, origin_text("http"@, domain)),
            is_secure,
        ),
    }
}

/// The host is a suffix of the domain, and what stands before it is
/// nothing, or ends in a dot where subdomains count: the same as
/// [`host_covers`].
pub proof fn lemma_host_covers_by_suffix(host: Seq<char>, subdomains: bool, domain: Seq<char>)
    ensures
        host_covers(host, subdomains, domain) <==> (host.len() <= domain.len() && domain.skip(
            domain.len() - host.len(),
        ) == host && (domain.len() == host.len() || (subdomains && domain[domain.len()
            - host.len() - 1] == '.'))),
{
    let cut = domain.len() - host.len();
    if host_covers(host, subdomains, domain) {
        if domain == host {
            assert(domain.skip(0) =~= domain);
        } else {
            let label = choose|label: Seq<char>| domain == #[trigger] subdomain_name(label, host);
            assert(domain.skip(cut) =~= host);
        }
    }
    if host.len() <= domain.len() && domain.skip(cut) == host {
        if domain.len() == host.len() {
            assert(domain.skip(0) =~= domain);
        } else if subdomains && domain[cut - 1] == '.' {
            let label = domain.take(cut - 1);
            assert(domain =~= subdomain_name(label, host));
        }
    }
}

/// Whether `host` covers `domain`, both given by their characters.
fn covers(host: &Vec<char>, subdomains: bool, domain: &Vec<char>) -> (covered: bool)
    ensures
        covered == host_covers(host@, subdomains, domain@),
{
    proof {
        lemma_host_covers_by_suffix(host@, subdomains, domain@);
    }
    if host.len() > domain.len() {
        return false;
    }
    let cut = domain.len() - host.len();
    let mut i: usize = 0;
    while i < host.len()
        invariant
            i <= host@.len(),
            cut + host@.len() == domain@.len(),
            domain@.len() <= usize::MAX,
            forall|j: int| 0 <= j < i ==> domain@[cut + j] == host@[j],
        decreases host@.len() - i,
    {
        if domain[cut + i] != host[i] {
            return false;
        }
        i += 1;
    }
    assert(domain@.skip(cut as int) =~= host@);
    if cut == 0 {
        true
    } else {
        subdomains && domain[cut - 1] == '.'
    }
}

/// Whether the host with the text `host` covers the domain `domain`: the
/// two are equal, or, where `subdomains` is set, the domain ends in a dot
/// followed by the host.
pub fn domain_matches(host: &str, subdomains: bool, domain: &str) -> (covered: bool)
    ensures
        covered == host_covers(host@, subdomains, domain@),
{
    let host = chars_of(host);
    let domain = chars_of(domain);
    covers(&host, subdomains, &domain)
}

/// What a textual rule decides once it has spoken to the two origins of a
/// cookie.
pub fn text_rule_verdict(https_hit: bool, http_hit: bool, is_secure: bool) -> (matched: bool)
    ensures
        matched == text_verdict(https_hit, http_hit, is_secure),
{
    https_hit || (!is_secure && http_hit)
}

/// What the compiler's answer to a textual rule means for the pattern: what
/// compiled goes on as it is; a fault becomes the error that refuses the
/// rule, and the error holds the compiler's description.
pub fn text_rule_admitted<T>(compiled: Result<T, String>) -> (r: Result<T, CookieError>)
    ensures
        match r {
            Ok(rule) => compiled == Ok::<T, String>(rule),
            Err(e) => compiled is Err && e@ == (CookieErrorView {
                kind: CookieErrorKind::InvalidPattern,
                detail: compiled->Err_0@,
            }),
        },
{
    match compiled {
        Ok(rule) => Ok(rule),
        Err(description) => Err(CookieError::new(CookieErrorKind::InvalidPattern, description)),
    }
}

/// A rule together with the text of its host, worked out once.
struct CompiledRule {
    rule: CookieHost,
    text: Vec<char>,
}

impl CompiledRule {
    spec fn wf(self) -> bool {
        self.text@ == host_text(self.rule@.host)
    }

    fn compile(rule: CookieHost) -> (compiled: CompiledRule)
        ensures
            compiled.wf(),
            compiled.rule == rule,
    {
        let text = chars_of(rule.host().to_string().as_str());
        CompiledRule { rule, text }
    }

    fn duplicate(&self) -> (copy: CompiledRule)
        requires
            self.wf(),
        ensures
            copy.wf(),
            copy.rule@ == self.rule@,
    {
        let mut text: Vec<char> = Vec::new();
        let mut i: usize = 0;
        while i < self.text.len()
            invariant
                i <= self.text@.len(),
                text@ == self.text@.take(i as int),
            decreases self.text@.len() - i,
        {
            text.push(self.text[i]);
            i += 1;
        }
        assert(text@ =~= self.text@);
        CompiledRule { rule: self.rule.clone(), text }
    }

    fn matches(&self, domain: &Vec<char>, is_secure: bool) -> (matched: bool)
        requires
            self.wf(),
        ensures
            matched == rule_matches(self.rule@, domain@, is_secure),
    {
        if is_secure && !self.rule.allows(CookieHostScheme::Https) {
            false
        } else {
            covers(&self.text, self.rule.matches_subdomains(), domain)
        }
    }
}

/// The rules of a list of compiled rules.
spec fn compiled_rules(list: Seq<CompiledRule>) -> Seq<RuleView> {
    list.map_values(|compiled: CompiledRule| compiled.rule@)
}

/// The three modes of a pattern.
enum Matcher {
    Any,
    Hosts(Vec<CompiledRule>),
    Text(TextRule),
}

/// A compiled cookie pattern: it matches every cookie, or the cookies of a
/// set of origin rules, or the cookies whose origins a textual rule
/// accepts. It never changes once built.
pub struct CookiePattern {
    matcher: Matcher,
}

impl View for CookiePattern {
    type V = PatternView;

    closed spec fn view(&self) -> PatternView {
        match self.matcher {
            Matcher::Any => PatternView::Any,
            Matcher::Hosts(list) => PatternView::Hosts(compiled_rules(list@).to_set()),
            Matcher::Text(rule) => PatternView::Text(rule@),
        }
    }
}

/// The rules of a list of hosts.
pub open spec fn rule_views(hosts: Seq<CookieHost>) -> Seq<RuleView> {
    hosts.map_values(|host: CookieHost| host@)
}

/// The pattern that a list of rules compiles to: with no list, or an empty
/// one, the pattern that matches every cookie; else the set of the rules.
pub open spec fn hosts_pattern(hosts: Option<Seq<RuleView>>) -> PatternView {
    match hosts {
        Some(rules) => if rules.len() == 0 {
            PatternView::Any
        } else {
            PatternView::Hosts(rules.to_set())
        },
        None => PatternView::Any,
    }
}

/// The rules that a built pattern holds, in their order: those of the
/// builder's list, each where it first stands; none where a textual rule
/// was chosen.
pub open spec fn built_rules(builder: BuilderView) -> Seq<RuleView> {
    match (builder.rule, builder.hosts) {
        (None, Some(rules)) => first_occurrences(rules),
        _ => Seq::empty(),
    }
}

/// The mathematical content of a [`CookiePatternBuilder`]: a list of rules
/// or a textual rule, never both.
pub struct BuilderView {
    pub hosts: Option<Seq<RuleView>>,
    pub rule: Option<Seq<char>>,
}

/// What building makes of a builder: a textual rule decides alone, and is
/// refused where it does not compile; else the list of rules decides.
pub open spec fn built(builder: BuilderView) -> Result<PatternView, CookieErrorView> {
    match builder.rule {
        Some(rule) => match text_rule_fault(rule) {
            None => Ok(PatternView::Text(rule)),
            Some(fault) => Err(
                CookieErrorView { kind: CookieErrorKind::InvalidPattern, detail: fault },
            ),
        },
        None => Ok(hosts_pattern(builder.hosts)),
    }
}

impl CookiePattern {
    #[verifier::type_invariant]
    spec fn wf(self) -> bool {
        match self.matcher {
            Matcher::Any => true,
            Matcher::Hosts(list) => {
                &&& list@.len() > 0
                &&& forall|i: int| 0 <= i < list@.len() ==> (#[trigger] list@[i]).wf()
                &&& compiled_rules(list@).no_duplicates()
            },
            Matcher::Text(_) => true,
        }
    }

    /// The rules of the pattern in the order in which it holds them; none
    /// for a pattern that is not made of rules.
    pub closed spec fn rule_list(&self) -> Seq<RuleView> {
        match self.matcher {
            Matcher::Hosts(list) => compiled_rules(list@),
            _ => Seq::empty(),
        }
    }

    /// Whether the pattern matches a cookie with the given domain and
    /// secure flag.
    pub fn matches(&self, domain: &str, is_secure: bool) -> (matched: bool)
        ensures
            matched == pattern_matches(self@, domain@, is_secure),
    {
        proof {
            use_type_invariant(self);
        }
        match &self.matcher {
            Matcher::Any => true,
            Matcher::Hosts(list) => {
                let domain_chars = chars_of(domain);
                let ghost rules = compiled_rules(list@);
                let mut i: usize = 0;
                while i < list.len()
                    invariant
                        i <= list@.len(),
                        rules == compiled_rules(list@),
                        self@ == PatternView::Hosts(rules.to_set()),
                        domain_chars@ == domain@,
                        forall|j: int| 0 <= j < list@.len() ==> (#[trigger] list@[j]).wf(),
                        forall|j: int| 0 <= j < i ==> !rule_matches(rules[j], domain@, is_secure),
                    decreases list@.len() - i,
                {
                    if list[i].matches(&domain_chars, is_secure) {
                        proof {
                            assert(rules[i as int] == list@[i as int].rule@);
                        }
                        return true;
                    }
                    i += 1;
                }
                proof {
                    assert forall|rule: RuleView| rules.to_set().contains(rule) implies !rule_matches(
                        rule,
                        domain@,
                        is_secure,
                    ) by {
                        let j = choose|j: int| 0 <= j < rules.len() && rules[j] == rule;
                        assert(!rule_matches(rules[j], domain@, is_secure));
                    }
                }
                false
            },
            Matcher::Text(rule) => {
                let https_hit = rule_accepts(rule, origin("https", domain).as_str());
                let http_hit = if https_hit || is_secure {
                    false
                } else {
                    rule_accepts(rule, origin("http", domain).as_str())
                };
                text_rule_verdict(https_hit, http_hit, is_secure)
            },
        }
    }

    /// The rules of the pattern, each once, in the order in which the
    /// pattern holds them; `None` for a pattern that is not made of rules.
    pub fn hosts(&self) -> (hosts: Option<Vec<CookieHost>>)
        ensures
            match hosts {
                Some(list) => self@ == PatternView::Hosts(rule_views(list@).to_set())
                    && rule_views(list@) == self.rule_list() && rule_views(
                    list@,
                ).no_duplicates() && list@.len() > 0,
                None => !(self@ is Hosts) && self.rule_list().len() == 0,
            },
    {
        proof {
            use_type_invariant(self);
        }
        match &self.matcher {
            Matcher::Hosts(list) => {
                let mut hosts: Vec<CookieHost> = Vec::new();
                let mut i: usize = 0;
                while i < list.len()
                    invariant
                        i <= list@.len(),
                        rule_views(hosts@) == compiled_rules(list@).take(i as int),
                    decreases list@.len() - i,
                {
                    let ghost before = rule_views(hosts@);
                    hosts.push(list[i].rule.clone());
                    assert(rule_views(hosts@) =~= before.push(list@[i as int].rule@));
                    i += 1;
                }
                assert(compiled_rules(list@).take(i as int) =~= compiled_rules(list@));
                Some(hosts)
            },
            _ => None,
        }
    }
}

impl Clone for CookiePattern {
    fn clone(&self) -> (copy: CookiePattern)
        ensures
            copy@ == self@,
            copy.rule_list() == self.rule_list(),
    {
        proof {
            use_type_invariant(self);
        }
        match &self.matcher {
            Matcher::Any => CookiePattern { matcher: Matcher::Any },
            Matcher::Hosts(list) => {
                let mut copy: Vec<CompiledRule> = Vec::new();
                let mut i: usize = 0;
                while i < list.len()
                    invariant
                        i <= list@.len(),
                        forall|j: int| 0 <= j < list@.len() ==> (#[trigger] list@[j]).wf(),
                        forall|j: int| 0 <= j < copy@.len() ==> (#[trigger] copy@[j]).wf(),
                        compiled_rules(copy@) == compiled_rules(list@).take(i as int),
                    decreases list@.len() - i,
                {
                    let ghost before = compiled_rules(copy@);
                    copy.push(list[i].duplicate());
                    assert(compiled_rules(copy@) =~= before.push(list@[i as int].rule@));
                    i += 1;
                }
                assert(compiled_rules(list@).take(i as int) =~= compiled_rules(list@));
                CookiePattern { matcher: Matcher::Hosts(copy) }
            },
            Matcher::Text(rule) => CookiePattern { matcher: Matcher::Text(copy_rule(rule)) },
        }
    }
}

impl Default for CookiePattern {
    /// The pattern that matches every cookie.
    fn default() -> (pattern: CookiePattern)
        ensures
            pattern@ == PatternView::Any,
            pattern.rule_list().len() == 0,
    {
        CookiePattern { matcher: Matcher::Any }
    }
}

/// Gathers what a pattern is to match: a list of origin rules, or a textual
/// rule. Choosing one drops the other.
pub struct CookiePatternBuilder {
    hosts: Option<Vec<CookieHost>>,
    rule: Option<String>,
}

impl View for CookiePatternBuilder {
    type V = BuilderView;

    closed spec fn view(&self) -> BuilderView {
        BuilderView {
            hosts: match self.hosts {
                Some(hosts) => Some(rule_views(hosts@)),
                None => None,
            },
            rule: match self.rule {
                Some(rule) => Some(rule@),
                None => None,
            },
        }
    }
}

impl Default for CookiePatternBuilder {
    /// A builder with nothing chosen: it builds the pattern that matches
    /// every cookie.
    fn default() -> (builder: CookiePatternBuilder)
        ensures
            builder@ == (BuilderView { hosts: None, rule: None }),
    {
        CookiePatternBuilder { hosts: None, rule: None }
    }
}

/// Whether a rule is among the compiled rules.
fn known(list: &Vec<CompiledRule>, rule: &CookieHost) -> (found: bool)
    ensures
        found == compiled_rules(list@).contains(rule@),
{
    let mut i: usize = 0;
    while i < list.len()
        invariant
            i <= list@.len(),
            forall|j: int| 0 <= j < i ==> compiled_rules(list@)[j] != rule@,
        decreases list@.len() - i,
    {
        if list[i].rule.same_as(rule) {
            assert(compiled_rules(list@)[i as int] == rule@);
            return true;
        }
        i += 1;
    }
    false
}

impl CookiePatternBuilder {
    #[verifier::type_invariant]
    spec fn one_choice(self) -> bool {
        self.hosts is None || self.rule is None
    }

    /// Chooses a list of origin rules, and drops a textual rule chosen
    /// before.
    pub fn match_hosts(self, hosts: Vec<CookieHost>) -> (builder: CookiePatternBuilder)
        ensures
            builder@ == (BuilderView { hosts: Some(rule_views(hosts@)), rule: None }),
    {
        CookiePatternBuilder { hosts: Some(hosts), rule: None }
    }

    /// Chooses a textual rule, a regular expression that is applied to the
    /// origins of a cookie, and drops a list of rules chosen before. The
    /// rule is compiled when the pattern is built.
    pub fn match_regex(self, rule: &str) -> (builder: CookiePatternBuilder)
        ensures
            builder@ == (BuilderView { hosts: None, rule: Some(rule@) }),
    {
        CookiePatternBuilder { hosts: None, rule: Some(String::from_str(rule)) }
    }

    /// Builds the pattern. A textual rule is compiled here: one that does
    /// not compile is refused now, never when a cookie is matched.
    pub fn build(self) -> (r: Result<CookiePattern, CookieError>)
        ensures
            match r {
                Ok(pattern) => built(self@) == Ok::<PatternView, CookieErrorView>(pattern@)
                    && pattern.rule_list() == built_rules(self@),
                Err(e) => built(self@) == Err::<PatternView, CookieErrorView>(e@),
            },
    {
        proof {
            use_type_invariant(&self);
        }
        if self.rule.is_some() {
            let CookiePatternBuilder { hosts: _, rule } = self;
            let rule = rule.unwrap();
            match text_rule_admitted(compile_rule(rule.as_str())) {
                Ok(compiled) => Ok(CookiePattern { matcher: Matcher::Text(compiled) }),
                Err(e) => Err(e),
            }
        } else {
            self.build_without_regex()
        }
    }

    /// Builds the pattern from the list of rules alone, as if no textual
    /// rule had been chosen. Each rule is kept once. This never fails.
    pub fn build_without_regex(self) -> (r: Result<CookiePattern, CookieError>)
        ensures
            r is Ok,
            r->Ok_0@ == hosts_pattern(self@.hosts),
            r->Ok_0.rule_list() == match self@.hosts {
                Some(rules) => first_occurrences(rules),
                None => Seq::empty(),
            },
    {
        let CookiePatternBuilder { hosts, rule: _ } = self;
        match hosts {
            None => Ok(CookiePattern { matcher: Matcher::Any }),
            Some(hosts) => {
                let ghost given = rule_views(hosts@);
                let mut list: Vec<CompiledRule> = Vec::new();
                for host in it: hosts
                    invariant
                        rule_views(it.seq()) == given,
                        forall|j: int| 0 <= j < list@.len() ==> (#[trigger] list@[j]).wf(),
                        compiled_rules(list@) == first_occurrences(
                            given.take(it.index() as int),
                        ),
                {
                    proof {
                        let upto = given.take(it.index() + 1);
                        assert(upto.drop_last() =~= given.take(it.index() as int));
                    }
                    if !known(&list, &host) {
                        list.push(CompiledRule::compile(host));
                    }
                }
                proof {
                    assert(given.take(given.len() as int) =~= given);
                    lemma_first_occurrences(given);
                }
                if list.len() == 0 {
                    Ok(CookiePattern { matcher: Matcher::Any })
                } else {
                    Ok(CookiePattern { matcher: Matcher::Hosts(list) })
                }
            },
        }
    }
}

} // verus!
