//! Which of the data that an engine keeps for websites counts as cache.

use vstd::prelude::*;

verus! {

/// The kinds of data that an engine keeps for websites.
#[derive(Clone, Copy, Debug, PartialEq, Eq, Hash, Structural)]
pub enum WebsiteDataKind {
    MemoryCache,
    DiskCache,
    OfflineWebApplicationCache,
    Cookies,
    SessionStorage,
    LocalStorage,
    WebSqlDatabases,
    IndexedDbDatabases,
}

/// Whether a kind of data is cache: the memory cache, the disk cache and the
/// offline web application cache are, and nothing else is. Cookies are not.
pub open spec fn is_cache_kind(kind: WebsiteDataKind) -> bool {
    kind is MemoryCache || kind is DiskCache || kind is OfflineWebApplicationCache
}

impl WebsiteDataKind {
    /// Whether clearing the cache purges data of this kind.
    pub fn is_cache(self) -> (cache: bool)
        ensures
            cache == is_cache_kind(self),
    {
        match self {
            WebsiteDataKind::MemoryCache => true,
            WebsiteDataKind::DiskCache => true,
            WebsiteDataKind::OfflineWebApplicationCache => true,
            _ => false,
        }
    }
}

/// The kinds of data that clearing the cache purges: all the kinds that are
/// cache, each once, and no other; so never the cookies.
pub fn cache_kinds() -> (kinds: Vec<WebsiteDataKind>)
    ensures
        kinds@ == seq![
            WebsiteDataKind::MemoryCache,
            WebsiteDataKind::DiskCache,
            WebsiteDataKind::OfflineWebApplicationCache,
        ],
        forall|kind: WebsiteDataKind| kinds@.contains(kind) <==> is_cache_kind(kind),
        !kinds@.contains(WebsiteDataKind::Cookies),
{
    let mut kinds: Vec<WebsiteDataKind> = Vec::new();
    kinds.push(WebsiteDataKind::MemoryCache);
    kinds.push(WebsiteDataKind::DiskCache);
    kinds.push(WebsiteDataKind::OfflineWebApplicationCache);
    kinds
}

} // verus!
