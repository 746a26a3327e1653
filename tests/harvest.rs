use sitemap_harvest::crawl::{assemble_shards, build_shard, collect_shard, page_shard, ChildCrawl, LeafPage};
use sitemap_harvest::entry::{parse_entry, Entry, Votes};
use sitemap_harvest::sitemap_doc::{
    collect_locations, resolve_listing, resolve_sitemap, ListingError, SiteMapComponent, SitemapError,
};

fn index_doc(locs: &[&str]) -> Vec<u8> {
    let mut s = String::from(
        "<?xml version=\"1.0\" encoding=\"UTF-8\"?>\n<sitemapindex xmlns=\"http://www.sitemaps.org/schemas/sitemap/0.9\">\n",
    );
    for l in locs {
        s.push_str(&format!("  <sitemap><loc>{}</loc></sitemap>\n", l));
    }
    s.push_str("</sitemapindex>\n");
    s.into_bytes()
}

fn urlset_doc(locs: &[&str]) -> Vec<u8> {
    let mut s = String::from(
        "<?xml version=\"1.0\" encoding=\"UTF-8\"?>\n<urlset xmlns=\"http://www.sitemaps.org/schemas/sitemap/0.9\">\n",
    );
    for l in locs {
        s.push_str(&format!("  <url><loc>{}</loc></url>\n", l));
    }
    s.push_str("</urlset>\n");
    s.into_bytes()
}

fn panel(header: &str, rest: &str) -> String {
    format!("<div class=\"def-panel\">{}{}</div>", header, rest)
}

fn header(word: &str, category: &str) -> String {
    format!(
        "<div class=\"def-header\"><a class=\"word\">{}</a><span class=\"category\">{}</span></div>",
        word, category
    )
}

fn full_panel(word: &str, up: &str, down: &str) -> String {
    panel(
        &header(word, "slang"),
        &format!(
            "<div class=\"meaning\">the meaning</div><div class=\"example\">an example</div>\
             <div class=\"tags\"><a href=\"/t1\">first</a><a href=\"/t2\">second</a></div>\
             <div class=\"thumbs\"><a class=\"up\">{}</a><a class=\"down\">{}</a></div>",
            up, down
        ),
    )
}

fn page(panels: &[String]) -> String {
    format!("<html><head><title>t</title></head><body>{}</body></html>", panels.concat())
}

fn strings(v: &[&str]) -> Vec<String> {
    v.iter().map(|s| s.to_string()).collect()
}

fn sorted(mut v: Vec<String>) -> Vec<String> {
    v.sort();
    v
}

#[test]
fn index_resolves_to_children() {
    let doc = index_doc(&["https://example.com/a.xml", "https://example.com/b.xml"]);
    let r = resolve_sitemap(&doc).unwrap();
    assert_eq!(sorted(r), strings(&["https://example.com/a.xml", "https://example.com/b.xml"]));
}

#[test]
fn urlset_resolves_to_leaves() {
    let doc = urlset_doc(&["https://example.com/define?term=x", "https://example.com/define?term=y"]);
    let r = resolve_sitemap(&doc).unwrap();
    assert_eq!(sorted(r), strings(&["https://example.com/define?term=x", "https://example.com/define?term=y"]));
}

#[test]
fn locations_are_normalized() {
    let doc = urlset_doc(&["HTTPS://Example.COM"]);
    assert_eq!(resolve_sitemap(&doc).unwrap(), strings(&["https://example.com/"]));
}

#[test]
fn duplicate_locations_count_once() {
    let doc = urlset_doc(&["https://example.com/p", "https://example.com/q", "https://example.com/p"]);
    let r = resolve_sitemap(&doc).unwrap();
    assert_eq!(sorted(r), strings(&["https://example.com/p", "https://example.com/q"]));
}

#[test]
fn duplicate_across_entity_kinds_count_once() {
    let cs = vec![
        SiteMapComponent::SiteMap(Some(String::from("https://example.com/x"))),
        SiteMapComponent::Url(Some(String::from("https://example.com/x"))),
        SiteMapComponent::Url(Some(String::from("https://example.com/y"))),
    ];
    let r = collect_locations(&cs).unwrap();
    assert_eq!(sorted(r), strings(&["https://example.com/x", "https://example.com/y"]));
}

#[test]
fn empty_document_resolves_to_nothing() {
    let doc = urlset_doc(&[]);
    assert_eq!(resolve_sitemap(&doc).unwrap(), Vec::<String>::new());
}

#[test]
fn bad_location_aborts_document() {
    let doc = urlset_doc(&["https://example.com/ok", "not a url", "https://example.com/other"]);
    assert_eq!(resolve_sitemap(&doc), Err(SitemapError::BadLocation(1)));
}

#[test]
fn missing_location_aborts_document() {
    let cs = vec![SiteMapComponent::Url(Some(String::from("https://example.com/a"))), SiteMapComponent::SiteMap(None)];
    assert_eq!(collect_locations(&cs), Err(SitemapError::BadLocation(1)));
}

#[test]
fn reader_error_reported() {
    let cs = vec![
        SiteMapComponent::Error(String::from("unexpected end")),
        SiteMapComponent::SiteMap(None),
    ];
    assert_eq!(collect_locations(&cs), Err(SitemapError::Malformed(String::from("unexpected end"))));
}

#[test]
fn malformed_document_reported() {
    let doc = b"<urlset><url><loc>https://example.com/a</loc></url>".to_vec();
    assert!(matches!(resolve_sitemap(&doc), Err(SitemapError::Malformed(_))));
}

#[test]
fn unreachable_listing() {
    assert_eq!(resolve_listing(&None), Err(ListingError::Unreachable));
}

#[test]
fn fetched_listing_resolves() {
    let doc = index_doc(&["https://example.com/a.xml"]);
    assert_eq!(resolve_listing(&Some(doc)), Ok(strings(&["https://example.com/a.xml"])));
    let bad = urlset_doc(&["nope"]);
    assert_eq!(resolve_listing(&Some(bad)), Err(ListingError::Sitemap(SitemapError::BadLocation(0))));
}

#[test]
fn full_entry_extracted() {
    let html = page(&[full_panel("yeet", "12", "3")]);
    let es = parse_entry(&html, "https://example.com/define?term=yeet");
    assert_eq!(
        es,
        vec![Entry {
            url: String::from("https://example.com/define?term=yeet"),
            title: String::from("yeet"),
            category: String::from("slang"),
            meaning: String::from("the meaning"),
            example: String::from("an example"),
            tags: strings(&["first", "second"]),
            votes: Some(Votes { up: 12, down: 3 }),
        }]
    );
}

#[test]
fn panel_without_tags_has_empty_tags() {
    let html = page(&[panel(
        &header("word", "cat"),
        "<div class=\"meaning\">m</div><div class=\"example\">e</div>\
         <div class=\"thumbs\"><span class=\"up\">1</span><span class=\"down\">2</span></div>",
    )]);
    let es = parse_entry(&html, "https://example.com/w");
    assert_eq!(es.len(), 1);
    assert_eq!(es[0].tags, Vec::<String>::new());
    assert_eq!(es[0].title, "word");
    assert_eq!(es[0].category, "cat");
    assert_eq!(es[0].meaning, "m");
    assert_eq!(es[0].example, "e");
    assert_eq!(es[0].votes, Some(Votes { up: 1, down: 2 }));
}

#[test]
fn headerless_panel_skipped_others_kept() {
    let html = page(&[
        full_panel("one", "1", "1"),
        panel("", "<div class=\"meaning\">orphan</div>"),
        full_panel("three", "3", "3"),
    ]);
    let es = parse_entry(&html, "https://example.com/p");
    let titles: Vec<&str> = es.iter().map(|e| e.title.as_str()).collect();
    assert_eq!(titles, vec!["one", "three"]);
}

#[test]
fn missing_fields_degrade_to_empty() {
    let html = page(&[panel("<div class=\"def-header\"></div>", "")]);
    let es = parse_entry(&html, "u");
    assert_eq!(
        es,
        vec![Entry {
            url: String::from("u"),
            title: String::new(),
            category: String::new(),
            meaning: String::new(),
            example: String::new(),
            tags: vec![],
            votes: None,
        }]
    );
}

#[test]
fn up_without_down_gives_no_votes() {
    let html = page(&[panel(&header("w", "c"), "<div class=\"thumbs\"><span class=\"up\">5</span></div>")]);
    let es = parse_entry(&html, "u");
    assert_eq!(es.len(), 1);
    assert_eq!(es[0].votes, None);
}

#[test]
fn non_numeric_votes_give_no_votes() {
    let html = page(&[full_panel("w", "many", "3")]);
    assert_eq!(parse_entry(&html, "u")[0].votes, None);
    let html = page(&[full_panel("w", " 4", "3")]);
    assert_eq!(parse_entry(&html, "u")[0].votes, None);
    let html = page(&[full_panel("w", "99999999999", "3")]);
    assert_eq!(parse_entry(&html, "u")[0].votes, None);
}

#[test]
fn signed_votes_parsed() {
    let html = page(&[full_panel("w", "+7", "-2")]);
    assert_eq!(parse_entry(&html, "u")[0].votes, Some(Votes { up: 7, down: -2 }));
}

#[test]
fn page_without_panels_gives_nothing() {
    assert_eq!(parse_entry("<html><body><p>nothing here</p></body></html>", "u"), vec![]);
    assert_eq!(parse_entry("", "u"), vec![]);
}

#[test]
fn failed_leaf_contributes_nothing() {
    let pages = vec![
        LeafPage { url: String::from("a"), body: Some(page(&[full_panel("x", "1", "1")])) },
        LeafPage { url: String::from("b"), body: None },
        LeafPage { url: String::from("c"), body: Some(page(&[full_panel("y", "1", "1"), full_panel("z", "1", "1")])) },
    ];
    let shard = collect_shard(&pages);
    let titles: Vec<&str> = shard.iter().map(|e| e.title.as_str()).collect();
    assert_eq!(titles, vec!["x", "y", "z"]);
    assert_eq!(page_shard(&pages[1]), vec![]);
    assert_eq!(page_shard(&pages[2]).len(), 2);
}

#[test]
fn failed_child_listing_keeps_siblings() {
    let a = ChildCrawl {
        leaves: Ok(strings(&["a1"])),
        pages: vec![LeafPage { url: String::from("a1"), body: Some(page(&[full_panel("a", "1", "2")])) }],
    };
    let failed = ChildCrawl { leaves: Err(ListingError::Unreachable), pages: vec![] };
    let c = ChildCrawl {
        leaves: Ok(strings(&["c1"])),
        pages: vec![LeafPage { url: String::from("c1"), body: Some(page(&[full_panel("c", "3", "4")])) }],
    };
    let expected_a = build_shard(&a);
    let expected_c = build_shard(&c);
    let shards = assemble_shards(&vec![a, failed, c]);
    assert_eq!(shards.len(), 3);
    assert_eq!(shards[0], expected_a);
    assert_eq!(shards[1], vec![]);
    assert_eq!(shards[2], expected_c);
    assert_eq!(shards[2][0].votes, Some(Votes { up: 3, down: 4 }));
}

#[test]
fn two_children_end_to_end() {
    let root = index_doc(&["https://example.com/a.xml", "https://example.com/b.xml"]);
    let children = sorted(resolve_listing(&Some(root)).unwrap());
    assert_eq!(children.len(), 2);
    let listing_a = urlset_doc(&["https://example.com/a1", "https://example.com/a2"]);
    let listing_b = urlset_doc(&["https://example.com/b1"]);
    let leaves_a = sorted(resolve_listing(&Some(listing_a)).unwrap());
    let leaves_b = resolve_listing(&Some(listing_b)).unwrap();
    assert_eq!(leaves_a, strings(&["https://example.com/a1", "https://example.com/a2"]));
    assert_eq!(leaves_b, strings(&["https://example.com/b1"]));
    let a1 = page(&[full_panel("p", "1", "0"), full_panel("q", "2", "0"), full_panel("r", "3", "0")]);
    let a2 = page(&[]);
    let b1 = page(&[panel(&header("s", "c"), "<div class=\"thumbs\"><b class=\"up\">9</b></div>")]);
    let child_a = ChildCrawl {
        pages: vec![
            LeafPage { url: leaves_a[0].clone(), body: Some(a1) },
            LeafPage { url: leaves_a[1].clone(), body: Some(a2) },
        ],
        leaves: Ok(leaves_a),
    };
    let child_b = ChildCrawl {
        pages: vec![LeafPage { url: leaves_b[0].clone(), body: Some(b1) }],
        leaves: Ok(leaves_b),
    };
    let shards = assemble_shards(&vec![child_a, child_b]);
    assert_eq!(shards.len(), 2);
    assert_eq!(shards[0].len(), 3);
    assert_eq!(shards[1].len(), 1);
    assert_eq!(shards[1][0].votes, None);
    assert_eq!(shards[1][0].title, "s");
    assert_eq!(shards[1][0].url, "https://example.com/b1");
}
