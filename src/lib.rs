//! Harvesting dictionary entries from a site's sitemap hierarchy.
//!
//! The transport stays with the caller: this library takes fetched documents
//! as plain values and turns them into sets of locations, into entries, and
//! into one shard of entries per child sitemap.
pub mod crawl;
pub mod entry;
pub mod markup;
pub mod sitemap_doc;
