//! Enumeration and deletion over the cookies of an engine: which native
//! cookies a pattern selects, in which order they are handed out, and what
//! is left once the selected ones are deleted.

use vstd::prelude::*;

use crate::cookie::Cookie;
use crate::cookie::cookie_views;
use crate::cookie::CookieView;
use crate::error::CookieError;
use crate::error::CookieErrorKind;
use crate::error::CookieErrorView;
use crate::host::origin;
use crate::host::origin_text;
use crate::native::missing_field;
use crate::native::NativeCookie;
use crate::native::NativeCookieView;
use crate::native::normalized;
use crate::pattern::CookiePattern;
use crate::pattern::pattern_matches;
use crate::pattern::PatternView;
use crate::text::trim_leading;
use crate::text::trim_leading_char;

verus! {

/// Whether a pattern matches a native cookie, told from its domain, less
/// any leading dots, and its secure flag alone. A cookie without a domain
/// cannot be told, and the error names the field.
pub open spec fn prefilter(pattern: PatternView, native: NativeCookieView) -> Result<
    bool,
    CookieErrorView,
> {
    match native.domain {
        None => Err(missing_field("domain"@)),
        Some(domain) => Ok(pattern_matches(pattern, trim_leading(domain, '.'), native.is_secure)),
    }
}

/// What a pattern makes of one native cookie: nothing where it does not
/// match; else the canonical cookie, or the error that kept it from being
/// told or normalised. A cookie that does not match is never normalised,
/// so its faults never show.
pub open spec fn selection(pattern: PatternView, native: NativeCookieView) -> Option<
    Result<CookieView, CookieErrorView>,
> {
    match prefilter(pattern, native) {
        Err(e) => Some(Err(e)),
        Ok(matched) => if matched {
            Some(normalized(native))
        } else {
            None
        },
    }
}

/// What enumerating a list of native cookies gives: the canonical cookies
/// of those that the pattern selects, in the order of the list, or the
/// first error met on the way.
pub open spec fn gathered(pattern: PatternView, natives: Seq<NativeCookieView>) -> Result<
    Seq<CookieView>,
    CookieErrorView,
>
    decreases natives.len(),
{
    if natives.len() == 0 {
        Ok(Seq::empty())
    } else {
        match selection(pattern, natives[0]) {
            None => gathered(pattern, natives.drop_first()),
            Some(Err(e)) => Err(e),
            Some(Ok(cookie)) => match gathered(pattern, natives.drop_first()) {
                Ok(rest) => Ok(seq![cookie] + rest),
                Err(e) => Err(e),
            },
        }
    }
}

/// What deleting leaves of a list of native cookies: every selected cookie
/// goes, up to the first error; from there on the list stays as it was.
pub open spec fn kept(pattern: PatternView, natives: Seq<NativeCookieView>) -> Seq<
    NativeCookieView,
>
    decreases natives.len(),
{
    if natives.len() == 0 {
        Seq::empty()
    } else {
        match selection(pattern, natives[0]) {
            None => seq![natives[0]] + kept(pattern, natives.drop_first()),
            Some(Err(_)) => natives,
            Some(Ok(_)) => kept(pattern, natives.drop_first()),
        }
    }
}

/// The first position from `from` on whose cookie the pattern selects, or
/// the length of the list where there is none.
pub open spec fn next_hit(pattern: PatternView, natives: Seq<NativeCookieView>, from: int) -> int
    decreases natives.len() - from,
{
    if from < 0 || from >= natives.len() {
        natives.len() as int
    } else if selection(pattern, natives[from]) is Some {
        from
    } else {
        next_hit(pattern, natives, from + 1)
    }
}

/// The pattern that stands for no pattern: the one that matches every
/// cookie.
pub open spec fn pattern_or_any(pattern: Option<&CookiePattern>) -> PatternView {
    match pattern {
        Some(pattern) => pattern@,
        None => PatternView::Any,
    }
}

/// The views of a list of native cookies.
pub open spec fn native_views(natives: Seq<NativeCookie>) -> Seq<NativeCookieView> {
    natives.map_values(|native: NativeCookie| native@)
}

/// The mathematical content of what was made of one native cookie.
pub open spec fn outcome_view(outcome: Result<Cookie, CookieError>) -> Result<
    CookieView,
    CookieErrorView,
> {
    match outcome {
        Ok(cookie) => Ok(cookie@),
        Err(e) => Err(e@),
    }
}

/// The two origins under which an engine is asked for the cookies of a
/// domain that it lists with cookies: the domain, less any leading dots,
/// under `https` and under `http`, in this order.
pub fn record_origins(domain: &str) -> (origins: (String, String))
    ensures
        origins.0@ == origin_text("https"@, trim_leading(domain@, '.')),
        origins.1@ == origin_text("http"@, trim_leading(domain@, '.')),
{
    let bare = trim_leading_char(domain, '.');
    (origin("https", bare), origin("http", bare))
}

impl CookiePattern {
    /// Whether the pattern matches a native cookie, told from its domain,
    /// less any leading dots, and its secure flag, without normalising it.
    pub fn cookie_matches(&self, cookie: &NativeCookie) -> (r: Result<bool, CookieError>)
        ensures
            match r {
                Ok(matched) => prefilter(self@, cookie@) == Ok::<bool, CookieErrorView>(matched),
                Err(e) => prefilter(self@, cookie@) == Err::<bool, CookieErrorView>(e@),
            },
    {
        match &cookie.domain {
            None => Err(
                CookieError::new(CookieErrorKind::MissingField, String::from_str("domain")),
            ),
            Some(domain) => {
                let bare = trim_leading_char(domain.as_str(), '.');
                Ok(self.matches(bare, cookie.is_secure))
            },
        }
    }

    /// What the pattern makes of one native cookie: `None` where it does
    /// not match; else the canonical cookie or the error.
    pub fn select(&self, cookie: &NativeCookie) -> (r: Option<Result<Cookie, CookieError>>)
        ensures
            match r {
                None => selection(self@, cookie@) is None,
                Some(outcome) => selection(self@, cookie@) == Some(outcome_view(outcome)),
            },
    {
        match self.cookie_matches(cookie) {
            Err(e) => Some(Err(e)),
            Ok(matched) => {
                if matched {
                    Some(Cookie::try_from(cookie))
                } else {
                    None
                }
            },
        }
    }
}

/// The cookies of an engine as they were listed at one moment, in the
/// order of the listing.
pub struct CookieJar {
    cookies: Vec<NativeCookie>,
}

impl View for CookieJar {
    type V = Seq<NativeCookieView>;

    closed spec fn view(&self) -> Seq<NativeCookieView> {
        native_views(self.cookies@)
    }
}

/// One selected cookie of a jar: where it stands in the jar, and what was
/// made of it.
pub struct Found {
    pub index: usize,
    pub outcome: Result<Cookie, CookieError>,
}

/// A pass over a jar that hands out the selected cookies one at a time, in
/// the order of the jar. It ends after the first error.
pub struct CookieScan {
    position: usize,
    stopped: bool,
}

impl CookieScan {
    /// Where the pass will look next.
    pub closed spec fn position(&self) -> int {
        self.position as int
    }

    /// Whether the pass has handed out an error, and so has ended.
    pub closed spec fn stopped(&self) -> bool {
        self.stopped
    }

    /// A pass that starts at the first cookie.
    pub fn new() -> (scan: CookieScan)
        ensures
            scan.position() == 0,
            !scan.stopped(),
    {
        CookieScan { position: 0, stopped: false }
    }

    /// The next selected cookie of the jar, or `None` when the pass has
    /// ended: when an error was handed out before, or no cookie from here
    /// on is selected.
    pub fn next(&mut self, pattern: Option<&CookiePattern>, jar: &CookieJar) -> (r: Option<Found>)
        ensures
            ({
                let hit = next_hit(pattern_or_any(pattern), jar@, old(self).position());
                if old(self).stopped() || hit >= jar@.len() {
                    &&& r is None
                    &&& final(self).stopped() == old(self).stopped()
                    &&& final(self).position() == if old(self).stopped() {
                        old(self).position()
                    } else if old(self).position() <= jar@.len() {
                        jar@.len() as int
                    } else {
                        old(self).position()
                    }
                } else {
                    &&& r is Some
                    &&& r->0.index == hit
                    &&& selection(pattern_or_any(pattern), jar@[hit]) == Some(
                        outcome_view(r->0.outcome),
                    )
                    &&& final(self).position() == hit + 1
                    &&& final(self).stopped() == (r->0.outcome is Err)
                }
            }),
    {
        if self.stopped {
            return None;
        }
        let any = CookiePattern::default();
        let chosen = match pattern {
            Some(pattern) => pattern,
            None => &any,
        };
        while self.position < jar.cookies.len()
            invariant
                !self.stopped,
                !old(self).stopped(),
                old(self).position() <= self.position,
                self.position <= jar@.len() || self.position == old(self).position(),
                jar@.len() == jar.cookies@.len(),
                chosen@ == pattern_or_any(pattern),
                next_hit(chosen@, jar@, old(self).position()) == next_hit(
                    chosen@,
                    jar@,
                    self.position as int,
                ),
            decreases jar.cookies@.len() - self.position,
        {
            let index = self.position;
            match chosen.select(&jar.cookies[index]) {
                None => {
                    self.position = index + 1;
                },
                Some(outcome) => {
                    self.position = index + 1;
                    self.stopped = outcome.is_err();
                    return Some(Found { index, outcome });
                },
            }
        }
        None
    }
}

impl CookieJar {
    /// A jar of the given native cookies, in the given order.
    pub fn new(cookies: Vec<NativeCookie>) -> (jar: CookieJar)
        ensures
            jar@ == native_views(cookies@),
    {
        CookieJar { cookies }
    }

    /// How many native cookies the jar holds.
    pub fn len(&self) -> (n: usize)
        ensures
            n == self@.len(),
    {
        self.cookies.len()
    }

    /// Whether the jar holds no cookie.
    pub fn is_empty(&self) -> (empty: bool)
        ensures
            empty == (self@.len() == 0),
    {
        self.cookies.len() == 0
    }

    /// The native cookie at `index`.
    pub fn get(&self, index: usize) -> (native: Option<&NativeCookie>)
        ensures
            match native {
                Some(native) => index < self@.len() && native@ == self@[index as int],
                None => index >= self@.len(),
            },
    {
        if index < self.cookies.len() {
            Some(&self.cookies[index])
        } else {
            None
        }
    }

    /// The canonical cookies of those that the pattern selects, in the
    /// order of the jar; with no pattern, of all. The first cookie that
    /// cannot be told or normalised ends the enumeration with its error.
    /// The jar stays as it is.
    pub fn get_cookies(&self, pattern: Option<&CookiePattern>) -> (r: Result<
        Vec<Cookie>,
        CookieError,
    >)
        ensures
            match r {
                Ok(cookies) => gathered(pattern_or_any(pattern), self@) == Ok::<
                    Seq<CookieView>,
                    CookieErrorView,
                >(cookie_views(cookies@)),
                Err(e) => gathered(pattern_or_any(pattern), self@) == Err::<
                    Seq<CookieView>,
                    CookieErrorView,
                >(e@),
            },
    {
        let any = CookiePattern::default();
        let chosen = match pattern {
            Some(pattern) => pattern,
            None => &any,
        };
        let ghost all = self@;
        let mut cookies: Vec<Cookie> = Vec::new();
        let mut i: usize = 0;
        assert(all.skip(0) =~= all);
        while i < self.cookies.len()
            invariant
                i <= all.len(),
                chosen@ == pattern_or_any(pattern),
                all == self@,
                all.len() == self.cookies@.len(),
                gathered(chosen@, all) == with_found(
                    cookie_views(cookies@),
                    gathered(chosen@, all.skip(i as int)),
                ),
            decreases all.len() - i,
        {
            proof {
                assert(all.skip(i as int).drop_first() =~= all.skip(i + 1));
            }
            match chosen.select(&self.cookies[i]) {
                None => {},
                Some(Err(e)) => {
                    return Err(e);
                },
                Some(Ok(cookie)) => {
                    let ghost before = cookie_views(cookies@);
                    cookies.push(cookie);
                    proof {
                        assert(cookie_views(cookies@) =~= before.push(cookie@));
                        lemma_with_found_shifts(
                            before,
                            cookie@,
                            gathered(chosen@, all.skip(i + 1)),
                        );
                    }
                },
            }
            i += 1;
        }
        Ok(cookies)
    }

    /// Deletes the cookies that the pattern selects, with no pattern all,
    /// and hands back their canonical cookies in the order of the jar. Each
    /// cookie is normalised before it is deleted. The first cookie that
    /// cannot be told or normalised ends the deletion with its error: it
    /// stays in the jar, and so does all that follows it, while what was
    /// deleted before it is gone and is not handed back.
    pub fn delete_cookies(&mut self, pattern: Option<&CookiePattern>) -> (r: Result<
        Vec<Cookie>,
        CookieError,
    >)
        ensures
            match r {
                Ok(cookies) => gathered(pattern_or_any(pattern), old(self)@) == Ok::<
                    Seq<CookieView>,
                    CookieErrorView,
                >(cookie_views(cookies@)),
                Err(e) => gathered(pattern_or_any(pattern), old(self)@) == Err::<
                    Seq<CookieView>,
                    CookieErrorView,
                >(e@),
            },
            final(self)@ == kept(pattern_or_any(pattern), old(self)@),
    {
        let any = CookiePattern::default();
        let chosen = match pattern {
            Some(pattern) => pattern,
            None => &any,
        };
        let ghost all = self@;
        let mut listed: Vec<NativeCookie> = Vec::new();
        core::mem::swap(&mut self.cookies, &mut listed);
        let mut cookies: Vec<Cookie> = Vec::new();
        let mut failure: Option<CookieError> = None;
        assert(all.skip(0) =~= all);
        for native in it: listed
            invariant
                native_views(it.seq()) == all,
                chosen@ == pattern_or_any(pattern),
                self.cookies@.len() <= it.index(),
                kept(chosen@, all) == native_views(self.cookies@) + (if failure is Some {
                    all.skip(it.index() as int)
                } else {
                    kept(chosen@, all.skip(it.index() as int))
                }),
                match failure {
                    Some(e) => gathered(chosen@, all) == Err::<Seq<CookieView>, CookieErrorView>(
                        e@,
                    ),
                    None => gathered(chosen@, all) == with_found(
                        cookie_views(cookies@),
                        gathered(chosen@, all.skip(it.index() as int)),
                    ),
                },
        {
            let ghost i = it.index() as int;
            proof {
                assert(all.skip(i).drop_first() =~= all.skip(i + 1));
            }
            if failure.is_some() {
                self.cookies.push(native);
            } else {
                match chosen.select(&native) {
                    None => {
                        self.cookies.push(native);
                    },
                    Some(Err(e)) => {
                        failure = Some(e);
                        self.cookies.push(native);
                    },
                    Some(Ok(cookie)) => {
                        let ghost before = cookie_views(cookies@);
                        cookies.push(cookie);
                        proof {
                            assert(cookie_views(cookies@) =~= before.push(cookie@));
                            lemma_with_found_shifts(
                                before,
                                cookie@,
                                gathered(chosen@, all.skip(i + 1)),
                            );
                        }
                    },
                }
            }
        }
        match failure {
            Some(e) => Err(e),
            None => Ok(cookies),
        }
    }
}

/// What was found so far, followed by what the rest of the list gives.
pub open spec fn with_found(
    found: Seq<CookieView>,
    rest: Result<Seq<CookieView>, CookieErrorView>,
) -> Result<Seq<CookieView>, CookieErrorView> {
    match rest {
        Ok(more) => Ok(found + more),
        Err(e) => Err(e),
    }
}

/// Moving one cookie from the head of the rest to the end of what was
/// found changes nothing.
pub proof fn lemma_with_found_shifts(
    found: Seq<CookieView>,
    cookie: CookieView,
    rest: Result<Seq<CookieView>, CookieErrorView>,
)
    ensures
        with_found(
            found,
            match rest {
                Ok(more) => Ok(seq![cookie] + more),
                Err(e) => Err(e),
            },
        ) == with_found(found.push(cookie), rest),
{
    match rest {
        Ok(more) => {
            assert(found + (seq![cookie] + more) =~= found.push(cookie) + more);
        },
        Err(e) => {},
    }
}

} // verus!
