//! Gathering the entries of each child sitemap into its shard.
//!
//! The caller fetches; each fetched document arrives here as a plain value,
//! with `None` standing for a fetch that failed.
use crate::entry::{entry_models, page_entries, parse_entry, Entry, EntryModel};
use crate::sitemap_doc::ListingError;
use vstd::prelude::*;

verus! {

/// A leaf page: its URL and its markup, or `None` where the fetch failed.
pub struct LeafPage {
    pub url: String,
    pub body: Option<String>,
}

/// What was gathered for one child sitemap: the resolution of its listing,
/// and the leaf pages fetched for the locations it gave.
pub struct ChildCrawl {
    pub leaves: Result<Vec<String>, ListingError>,
    pub pages: Vec<LeafPage>,
}

/// The entries of one leaf page; none where its fetch failed.
pub open spec fn leaf_entries(p: LeafPage) -> Seq<EntryModel> {
    match p.body {
        Some(html) => page_entries(html@, p.url@),
        None => Seq::empty(),
    }
}

/// The entries of `pages`, page after page.
pub open spec fn pages_entries(pages: Seq<LeafPage>) -> Seq<EntryModel>
    decreases pages.len(),
{
    if pages.len() == 0 {
        Seq::empty()
    } else {
        pages_entries(pages.drop_last()) + leaf_entries(pages.last())
    }
}

/// The shard of one child: empty where its listing yielded nothing, else the
/// entries of its leaf pages.
pub open spec fn child_shard(c: ChildCrawl) -> Seq<EntryModel> {
    match c.leaves {
        Ok(_) => pages_entries(c.pages@),
        Err(_) => Seq::empty(),
    }
}

/// The shards of `children`, one for each, in order.
pub open spec fn shards_of(children: Seq<ChildCrawl>) -> Seq<Seq<EntryModel>> {
    children.map_values(|c: ChildCrawl| child_shard(c))
}

proof fn lemma_entry_models_concat(a: Seq<Entry>, b: Seq<Entry>)
    ensures
        entry_models(a + b) == entry_models(a) + entry_models(b),
{
    assert(entry_models(a + b) =~= entry_models(a) + entry_models(b));
}

/// The entries of one leaf page; none where its fetch failed.
pub fn page_shard(page: &LeafPage) -> (r: Vec<Entry>)
    ensures
        entry_models(r@) == leaf_entries(*page),
{
    match &page.body {
        Some(html) => parse_entry(html.as_str(), page.url.as_str()),
        None => Vec::new(),
    }
}

/// Merges the entries of all `pages` into one shard, page after page. A page
/// whose fetch failed contributes nothing and holds up no other.
pub fn collect_shard(pages: &Vec<LeafPage>) -> (r: Vec<Entry>)
    ensures
        entry_models(r@) == pages_entries(pages@),
{
    let mut out: Vec<Entry> = Vec::new();
    let mut i: usize = 0;
    while i < pages.len()
        invariant
            i <= pages@.len(),
            entry_models(out@) == pages_entries(pages@.take(i as int)),
        decreases pages@.len() - i,
    {
        let mut found = page_shard(&pages[i]);
        let ghost before = out@;
        let ghost added = found@;
        out.append(&mut found);
        proof {
            lemma_entry_models_concat(before, added);
            assert(pages@.take(i + 1).drop_last() == pages@.take(i as int));
        }
        i += 1;
    }
    assert(pages@.take(i as int) == pages@);
    out
}

/// The shard of one child: empty where its listing yielded nothing.
pub fn build_shard(child: &ChildCrawl) -> (r: Vec<Entry>)
    ensures
        entry_models(r@) == child_shard(*child),
{
    match &child.leaves {
        Ok(_) => collect_shard(&child.pages),
        Err(_) => Vec::new(),
    }
}

/// The shards of all `children`, one for each, in order.
pub fn assemble_shards(children: &Vec<ChildCrawl>) -> (r: Vec<Vec<Entry>>)
    ensures
        r@.len() == children@.len(),
        forall|i: int| 0 <= i < r@.len() ==> entry_models(#[trigger] r@[i]@) == shards_of(children@)[i],
{
    let mut out: Vec<Vec<Entry>> = Vec::new();
    let mut i: usize = 0;
    while i < children.len()
        invariant
            i <= children@.len(),
            out@.len() == i,
            forall|j: int| 0 <= j < i ==> entry_models(#[trigger] out@[j]@) == shards_of(children@)[j],
        decreases children@.len() - i,
    {
        let shard = build_shard(&children[i]);
        out.push(shard);
        i += 1;
    }
    out
}

/// A child whose listing could not be fetched gets an empty shard, and every
/// other child's shard is exactly what it would have been had that fetch
/// succeeded.
pub proof fn lemma_failed_listing_contained(ok: Seq<ChildCrawl>, failed: Seq<ChildCrawl>, i: int)
    requires
        ok.len() == failed.len(),
        0 <= i < ok.len(),
        forall|j: int| 0 <= j < ok.len() && j != i ==> ok[j] == failed[j],
        failed[i].leaves == Err::<Vec<String>, ListingError>(ListingError::Unreachable),
    ensures
        shards_of(failed)[i] == Seq::<EntryModel>::empty(),
        forall|j: int| 0 <= j < ok.len() && j != i ==> shards_of(failed)[j] == shards_of(ok)[j],
{
}

} // verus!
