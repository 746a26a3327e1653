//! Resolving a sitemap (or sitemap index) document into the set of locations
//! that it lists.
use sitemap::reader::{SiteMapEntity, SiteMapReader};
use vstd::prelude::*;

verus! {

/// One entity of a sitemap document, as its reader produces it.
///
/// A reference carries its location as a normalized absolute URL, or `None`
/// where the `<loc>` element was absent or did not parse as a URL.
pub enum SiteMapComponent {
    SiteMap(Option<String>),
    Url(Option<String>),
    Error(String),
}

/// Why a sitemap document could not be resolved.
#[derive(Debug, PartialEq, Eq)]
pub enum SitemapError {
    /// The entity at this position has no usable location.
    BadLocation(usize),
    /// The document itself is malformed; the reader's message.
    Malformed(String),
}

/// The location that a component contributes, if it is a reference with a
/// usable location.
pub open spec fn location_of(c: SiteMapComponent) -> Option<Seq<char>> {
    match c {
        SiteMapComponent::SiteMap(Some(s)) => Some(s@),
        SiteMapComponent::Url(Some(s)) => Some(s@),
        _ => None,
    }
}

/// The error that a component gives rise to, at position `i`.
pub open spec fn component_error(c: SiteMapComponent, i: int) -> SitemapError {
    match c {
        SiteMapComponent::Error(m) => SitemapError::Malformed(m),
        _ => SitemapError::BadLocation(i as usize),
    }
}

/// Every component of `cs` is a reference with a usable location.
pub open spec fn all_located(cs: Seq<SiteMapComponent>) -> bool {
    forall|i: int| 0 <= i < cs.len() ==> (#[trigger] location_of(cs[i])).is_some()
}

/// Some component of `cs` lists location `s`.
pub open spec fn lists(cs: Seq<SiteMapComponent>, s: Seq<char>) -> bool {
    exists|i: int| 0 <= i < cs.len() && #[trigger] location_of(cs[i]) == Some(s)
}

/// No two strings of `v` are equal.
pub open spec fn distinct(v: Seq<String>) -> bool {
    forall|i: int, j: int| 0 <= i < j < v.len() ==> v[i]@ != v[j]@
}

/// Some string of `v` equals `s`.
pub open spec fn holds_str(v: Seq<String>, s: Seq<char>) -> bool {
    exists|i: int| 0 <= i < v.len() && v[i]@ == s
}

/// `v` holds each location that `cs` lists, exactly once, and nothing else.
pub open spec fn location_set(cs: Seq<SiteMapComponent>, v: Seq<String>) -> bool {
    &&& distinct(v)
    &&& forall|s: Seq<char>| lists(cs, s) <==> #[trigger] holds_str(v, s)
}

/// What resolving the components `cs` gives: the set of their locations when
/// every one is usable, else the error of the first one that is not.
pub open spec fn resolves_to(cs: Seq<SiteMapComponent>, r: Result<Vec<String>, SitemapError>) -> bool {
    match r {
        Ok(v) => all_located(cs) && location_set(cs, v@),
        Err(e) => exists|k: int|
            0 <= k < cs.len() && location_of(cs[k]).is_none() && (forall|i: int|
                0 <= i < k ==> (#[trigger] location_of(cs[i])).is_some()) && e == component_error(cs[k], k),
    }
}

/// The entities that the sitemap reader finds in the document `doc`.
pub uninterp spec fn sitemap_entities(doc: Seq<u8>) -> Seq<SiteMapComponent>;

/// Relies on `sitemap::reader::SiteMapReader` to read the entities of a
/// document in order, and on `Location::get_url` for the location of each.
#[verifier::external_body]
fn read_entities(doc: &[u8]) -> (r: Vec<SiteMapComponent>)
    ensures
        r@ == sitemap_entities(doc@),
{
    let mut out = Vec::new();
    for entity in SiteMapReader::new(doc) {
        out.push(match entity {
            SiteMapEntity::SiteMap(e) => SiteMapComponent::SiteMap(e.loc.get_url().map(String::from)),
            SiteMapEntity::Url(e) => SiteMapComponent::Url(e.loc.get_url().map(String::from)),
            SiteMapEntity::Err(e) => SiteMapComponent::Error(e.to_string()),
        });
    }
    out
}

/// Whether `v` already holds `s`.
fn holds(v: &Vec<String>, s: &String) -> (r: bool)
    ensures
        r == holds_str(v@, s@),
{
    let mut i: usize = 0;
    while i < v.len()
        invariant
            i <= v@.len(),
            forall|j: int| 0 <= j < i ==> v@[j]@ != s@,
        decreases v@.len() - i,
    {
        if v[i] == *s {
            return true;
        }
        i += 1;
    }
    false
}

/// Collects the locations of `components` into a set without duplicates.
/// The first component without a usable location, or the first reader error,
/// aborts the document.
pub fn collect_locations(components: &Vec<SiteMapComponent>) -> (r: Result<Vec<String>, SitemapError>)
    ensures
        resolves_to(components@, r),
{
    let mut out: Vec<String> = Vec::new();
    let mut k: usize = 0;
    while k < components.len()
        invariant
            k <= components@.len(),
            forall|i: int| 0 <= i < k ==> (#[trigger] location_of(components@[i])).is_some(),
            location_set(components@.take(k as int), out@),
        decreases components@.len() - k,
    {
        let loc: Option<&String> = match &components[k] {
            SiteMapComponent::SiteMap(Some(s)) => Some(s),
            SiteMapComponent::Url(Some(s)) => Some(s),
            _ => None,
        };
        match loc {
            Some(s) => {
                let ghost prev = components@.take(k as int);
                let ghost next = components@.take(k + 1);
                assert(next =~= prev.push(components@[k as int]));
                let ghost old_out = out@;
                if !holds(&out, s) {
                    out.push(s.clone());
                    assert(out@[old_out.len() as int]@ == s@);
                }
                assert forall|t: Seq<char>| #[trigger] holds_str(out@, t) <==> (t == s@ || holds_str(old_out, t)) by {
                    if holds_str(old_out, t) {
                        let i = choose|i: int| 0 <= i < old_out.len() && old_out[i]@ == t;
                        assert(out@[i]@ == t);
                    }
                    if holds_str(out@, t) {
                        let i = choose|i: int| 0 <= i < out@.len() && out@[i]@ == t;
                        if i < old_out.len() {
                            assert(old_out[i]@ == t);
                        }
                    }
                }
                assert forall|t: Seq<char>| lists(next, t) <==> #[trigger] holds_str(out@, t) by {
                    if lists(next, t) {
                        let i = choose|i: int| 0 <= i < next.len() && #[trigger] location_of(next[i]) == Some(t);
                        if i < k {
                            assert(location_of(prev[i]) == Some(t));
                        }
                    }
                    if lists(prev, t) {
                        let i = choose|i: int| 0 <= i < prev.len() && #[trigger] location_of(prev[i]) == Some(t);
                        assert(location_of(next[i]) == Some(t));
                    }
                    if t == s@ {
                        assert(location_of(next[k as int]) == Some(t));
                    }
                }
            },
            None => {
                let e = match &components[k] {
                    SiteMapComponent::Error(m) => SitemapError::Malformed(m.clone()),
                    _ => SitemapError::BadLocation(k),
                };
                return Err(e);
            },
        }
        k += 1;
    }
    assert(components@.take(k as int) =~= components@);
    Ok(out)
}

/// Reads the sitemap document `doc` and resolves it into the set of
/// locations that it lists.
pub fn resolve_sitemap(doc: &[u8]) -> (r: Result<Vec<String>, SitemapError>)
    ensures
        resolves_to(sitemap_entities(doc@), r),
{
    let components = read_entities(doc);
    collect_locations(&components)
}

/// Why a fetched listing contributes no locations.
#[derive(Debug, PartialEq, Eq)]
pub enum ListingError {
    /// The document could not be fetched.
    Unreachable,
    /// The document was fetched but could not be resolved.
    Sitemap(SitemapError),
}

/// Resolves a listing as the transport delivered it: `None` where the fetch
/// failed. Every failure leaves the listing without locations; the caller
/// reports it and carries on with its siblings.
pub fn resolve_listing(fetched: &Option<Vec<u8>>) -> (r: Result<Vec<String>, ListingError>)
    ensures
        fetched.is_none() ==> r == Err::<Vec<String>, ListingError>(ListingError::Unreachable),
        fetched matches Some(doc) ==> match r {
            Ok(v) => resolves_to(sitemap_entities(doc@), Ok(v)),
            Err(ListingError::Sitemap(e)) => resolves_to(sitemap_entities(doc@), Err(e)),
            Err(ListingError::Unreachable) => false,
        },
{
    match fetched {
        None => Err(ListingError::Unreachable),
        Some(doc) => match resolve_sitemap(doc.as_slice()) {
            Ok(v) => Ok(v),
            Err(e) => Err(ListingError::Sitemap(e)),
        },
    }
}

/// A location that two entities of a document list, whichever their kinds,
/// stands exactly once in the resolved set.
pub proof fn lemma_listed_twice_resolved_once(cs: Seq<SiteMapComponent>, v: Vec<String>, i: int, j: int)
    requires
        resolves_to(cs, Ok(v)),
        0 <= i < j < cs.len(),
        location_of(cs[i]).is_some(),
        location_of(cs[i]) == location_of(cs[j]),
    ensures
        exists|k: int|
            0 <= k < v@.len() && v@[k]@ == location_of(cs[i]).unwrap() && (forall|m: int|
                0 <= m < v@.len() && #[trigger] v@[m]@ == location_of(cs[i]).unwrap() ==> m == k),
{
    let s = location_of(cs[i]).unwrap();
    assert(lists(cs, s));
    assert(holds_str(v@, s));
    let k = choose|k: int| 0 <= k < v@.len() && v@[k]@ == s;
    assert forall|m: int| 0 <= m < v@.len() && #[trigger] v@[m]@ == s implies m == k by {
        if m < k {
            assert(v@[m]@ != v@[k]@);
        } else if k < m {
            assert(v@[k]@ != v@[m]@);
        }
    }
}

} // verus!
