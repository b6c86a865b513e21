//! Cookie selection and normalisation for embedded web views.
//!
//! A [`CookiePattern`] selects cookies by origin; [`Cookie::try_from`]
//! turns a cookie as an engine reports it, a [`NativeCookie`], into the one
//! canonical [`Cookie`]; a [`CookieJar`] enumerates and deletes the cookies
//! that a pattern selects. Everything here is verified but the calls in
//! [`outside`].

pub mod cache;
pub mod cookie;
pub mod distinct;
pub mod error;
pub mod host;
pub mod jar;
pub mod laws;
pub mod native;
pub mod outside;
pub mod pattern;
pub mod text;

pub use cache::WebsiteDataKind;
pub use cookie::Cookie;
pub use error::CookieError;
pub use error::CookieErrorKind;
pub use host::CookieHost;
pub use host::CookieHostScheme;
pub use host::Host;
pub use host::ParsedUrl;
pub use jar::CookieJar;
pub use jar::CookieScan;
pub use jar::Found;
pub use native::NativeCookie;
pub use native::NativeExpiry;
pub use native::NativeSameSite;
pub use native::Number;
pub use pattern::CookiePattern;
pub use pattern::CookiePatternBuilder;
