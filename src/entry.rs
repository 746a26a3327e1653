//! Entries and their tolerant extraction from a leaf page's markup.
use crate::markup::{
    class_nodes_below, class_nodes_in_document, find_below, find_in_document, find_named_in_class,
    named_nodes_in_class, node_text, parse_page, text_of, Page,
};
use vstd::prelude::*;
use vstd::string::StringExecFns;

verus! {

/// The two counters of a vote widget.
#[derive(Clone, Copy, Debug, PartialEq, Eq)]
pub struct Votes {
    pub up: i32,
    pub down: i32,
}

/// One dictionary entry, as found in one definition panel of a page.
///
/// `votes` is `None` where the vote widget is absent or malformed: vote data
/// is recorded for both counters or for neither.
#[derive(Clone, Debug, PartialEq, Eq)]
pub struct Entry {
    pub url: String,
    pub title: String,
    pub category: String,
    pub meaning: String,
    pub example: String,
    pub tags: Vec<String>,
    pub votes: Option<Votes>,
}

/// The mathematical content of an entry.
pub struct EntryModel {
    pub url: Seq<char>,
    pub title: Seq<char>,
    pub category: Seq<char>,
    pub meaning: Seq<char>,
    pub example: Seq<char>,
    pub tags: Seq<Seq<char>>,
    pub votes: Option<Votes>,
}

impl View for Entry {
    type V = EntryModel;

    open spec fn view(&self) -> EntryModel {
        EntryModel {
            url: self.url@,
            title: self.title@,
            category: self.category@,
            meaning: self.meaning@,
            example: self.example@,
            tags: string_views(self.tags@),
            votes: self.votes,
        }
    }
}

/// The texts of a sequence of strings.
pub open spec fn string_views(v: Seq<String>) -> Seq<Seq<char>> {
    v.map_values(|t: String| t@)
}

/// The texts of `nodes`, in order.
pub open spec fn texts_of(html: Seq<char>, nodes: Seq<usize>) -> Seq<Seq<char>> {
    nodes.map_values(|n: usize| node_text(html, n))
}

/// The models of a sequence of entries.
pub open spec fn entry_models(es: Seq<Entry>) -> Seq<EntryModel> {
    es.map_values(|e: Entry| e@)
}

/// The value of a non-empty run of ASCII decimal digits.
pub open spec fn digits_value(s: Seq<char>) -> int
    decreases s.len(),
{
    if s.len() == 0 {
        0
    } else {
        digits_value(s.drop_last()) * 10 + (s.last() as u32 - '0' as u32)
    }
}

/// `s` is a non-empty run of ASCII decimal digits.
pub open spec fn all_digits(s: Seq<char>) -> bool {
    s.len() > 0 && forall|i: int| 0 <= i < s.len() ==> '0' <= #[trigger] s[i] <= '9'
}

/// The integer that `s` writes in decimal: an optional sign, then digits.
pub open spec fn decimal_value(s: Seq<char>) -> Option<int> {
    if all_digits(s) {
        Some(digits_value(s))
    } else if s.len() > 0 && s[0] == '+' && all_digits(s.drop_first()) {
        Some(digits_value(s.drop_first()))
    } else if s.len() > 0 && s[0] == '-' && all_digits(s.drop_first()) {
        Some(-digits_value(s.drop_first()))
    } else {
        None
    }
}

/// The `i32` that `s` writes in decimal, if it writes one in range.
pub open spec fn count_of(s: Seq<char>) -> Option<i32> {
    match decimal_value(s) {
        Some(v) => if i32::MIN <= v <= i32::MAX {
            Some(v as i32)
        } else {
            None
        },
        None => None,
    }
}

/// Relies on `str::parse::<i32>`, which accepts exactly an optional sign
/// followed by decimal digits, with a value in range.
#[verifier::external_body]
fn parse_count(s: &str) -> (r: Option<i32>)
    ensures
        r == count_of(s@),
{
    s.parse::<i32>().ok()
}

/// The text of the first of `nodes`, or the empty text where there is none.
pub open spec fn first_text(html: Seq<char>, nodes: Seq<usize>) -> Seq<char> {
    if nodes.len() > 0 {
        node_text(html, nodes[0])
    } else {
        Seq::empty()
    }
}

/// The votes of panel `panel`: both counters of its first vote widget, or
/// none where either counter is absent or not an integer.
pub open spec fn votes_of(html: Seq<char>, panel: usize) -> Option<Votes> {
    let thumbs = class_nodes_below(html, panel, "thumbs"@);
    if thumbs.len() == 0 {
        None
    } else {
        let ups = class_nodes_below(html, thumbs[0], "up"@);
        let downs = class_nodes_below(html, thumbs[0], "down"@);
        if ups.len() == 0 || downs.len() == 0 {
            None
        } else {
            match (count_of(node_text(html, ups[0])), count_of(node_text(html, downs[0]))) {
                (Some(u), Some(d)) => Some(Votes { up: u, down: d }),
                _ => None,
            }
        }
    }
}

/// The entry of panel `panel`, if the panel has a header.
pub open spec fn panel_entry(html: Seq<char>, url: Seq<char>, panel: usize) -> Option<EntryModel> {
    let headers = class_nodes_below(html, panel, "def-header"@);
    if headers.len() == 0 {
        None
    } else {
        Some(
            EntryModel {
                url,
                title: first_text(html, class_nodes_below(html, headers[0], "word"@)),
                category: first_text(html, class_nodes_below(html, headers[0], "category"@)),
                meaning: first_text(html, class_nodes_below(html, panel, "meaning"@)),
                example: first_text(html, class_nodes_below(html, panel, "example"@)),
                tags: texts_of(html, named_nodes_in_class(html, panel, "tags"@, "a"@)),
                votes: votes_of(html, panel),
            },
        )
    }
}

/// The entries of `panels`, in order, skipping those without a header.
pub open spec fn panels_entries(html: Seq<char>, url: Seq<char>, panels: Seq<usize>) -> Seq<EntryModel>
    decreases panels.len(),
{
    if panels.len() == 0 {
        Seq::empty()
    } else {
        panels_entries(html, url, panels.drop_last()) + match panel_entry(html, url, panels.last()) {
            Some(e) => seq![e],
            None => Seq::empty(),
        }
    }
}

/// The entries of the page `html` found at `url`: one for each definition
/// panel that has a header, in document order.
pub open spec fn page_entries(html: Seq<char>, url: Seq<char>) -> Seq<EntryModel> {
    panels_entries(html, url, class_nodes_in_document(html, "def-panel"@))
}

/// The text of the first of `nodes`, or an empty string.
fn first_text_of(page: &Page, nodes: &Vec<usize>) -> (r: String)
    ensures
        r@ == first_text(page.source(), nodes@),
{
    if nodes.len() > 0 {
        text_of(page, nodes[0])
    } else {
        String::new()
    }
}

/// The text of the first node of class `class` below `node`, or an empty
/// string where there is none.
pub fn find_text(page: &Page, node: usize, class: &str) -> (r: String)
    ensures
        r@ == first_text(page.source(), class_nodes_below(page.source(), node, class@)),
{
    let nodes = find_below(page, node, class);
    first_text_of(page, &nodes)
}

/// The texts of the anchors inside the tags container of `panel`, in order.
pub fn parse_tags(page: &Page, panel: usize) -> (r: Vec<String>)
    ensures
        string_views(r@) == texts_of(page.source(), named_nodes_in_class(page.source(), panel, "tags"@, "a"@)),
{
    let anchors = find_named_in_class(page, panel, "tags", "a");
    let mut tags: Vec<String> = Vec::new();
    let mut i: usize = 0;
    while i < anchors.len()
        invariant
            i <= anchors@.len(),
            tags@.len() == i,
            string_views(tags@) == texts_of(page.source(), anchors@.take(i as int)),
        decreases anchors@.len() - i,
    {
        let t = text_of(page, anchors[i]);
        let ghost before = tags@;
        tags.push(t);
        assert(string_views(tags@) =~= texts_of(page.source(), anchors@.take(i + 1))) by {
            assert(before.len() == i);
            assert(tags@ == before.push(t));
            assert forall|j: int| 0 <= j <= i implies #[trigger] string_views(tags@)[j] == texts_of(
                page.source(),
                anchors@.take(i + 1),
            )[j] by {
                if j < i {
                    assert(tags@[j] == before[j]);
                    assert(string_views(before)[j] == texts_of(page.source(), anchors@.take(i as int))[j]);
                } else {
                    assert(tags@[j] == t);
                }
            }
        }
        i += 1;
    }
    assert(anchors@.take(i as int) =~= anchors@);
    tags
}

/// The votes of `panel`: both counters, or none at all.
pub fn parse_votes(page: &Page, panel: usize) -> (r: Option<Votes>)
    ensures
        r == votes_of(page.source(), panel),
{
    let thumbs = find_below(page, panel, "thumbs");
    if thumbs.len() == 0 {
        return None;
    }
    let ups = find_below(page, thumbs[0], "up");
    let downs = find_below(page, thumbs[0], "down");
    if ups.len() == 0 || downs.len() == 0 {
        return None;
    }
    let up_text = text_of(page, ups[0]);
    let down_text = text_of(page, downs[0]);
    match (parse_count(up_text.as_str()), parse_count(down_text.as_str())) {
        (Some(up), Some(down)) => Some(Votes { up, down }),
        _ => None,
    }
}

/// The entry of `panel`, or `None` where the panel has no header.
pub fn parse_panel(page: &Page, url: &str, panel: usize) -> (r: Option<Entry>)
    ensures
        match r {
            Some(e) => panel_entry(page.source(), url@, panel) == Some(e@),
            None => panel_entry(page.source(), url@, panel) is None,
        },
{
    let headers = find_below(page, panel, "def-header");
    if headers.len() == 0 {
        return None;
    }
    let header = headers[0];
    let e = Entry {
        url: String::from_str(url),
        title: find_text(page, header, "word"),
        category: find_text(page, header, "category"),
        meaning: find_text(page, panel, "meaning"),
        example: find_text(page, panel, "example"),
        tags: parse_tags(page, panel),
        votes: parse_votes(page, panel),
    };
    let ghost m = panel_entry(page.source(), url@, panel);
    assert(m is Some);
    assert(e@ == m.unwrap());
    Some(e)
}

/// Extracts the entries of the page `html` found at `url`: one for each
/// definition panel that has a header, in document order. Missing fields
/// other than the header degrade to empty values.
pub fn parse_entry(html: &str, url: &str) -> (r: Vec<Entry>)
    ensures
        entry_models(r@) == page_entries(html@, url@),
{
    let page = parse_page(html);
    let panels = find_in_document(&page, "def-panel");
    let mut out: Vec<Entry> = Vec::new();
    let mut i: usize = 0;
    while i < panels.len()
        invariant
            page.source() == html@,
            i <= panels@.len(),
            entry_models(out@) == panels_entries(html@, url@, panels@.take(i as int)),
        decreases panels@.len() - i,
    {
        let ghost before = out@;
        assert(panels@.take(i + 1).drop_last() == panels@.take(i as int));
        match parse_panel(&page, url, panels[i]) {
            Some(e) => {
                out.push(e);
                assert(entry_models(out@) == entry_models(before) + seq![e@]);
            },
            None => {
                assert(out@ == before);
            },
        }
        i += 1;
    }
    assert(panels@.take(i as int) == panels@);
    out
}

proof fn lemma_panels_entries_concat(html: Seq<char>, url: Seq<char>, a: Seq<usize>, b: Seq<usize>)
    ensures
        panels_entries(html, url, a + b) == panels_entries(html, url, a) + panels_entries(html, url, b),
    decreases b.len(),
{
    if b.len() == 0 {
        assert(a + b == a);
        assert(panels_entries(html, url, a) + panels_entries(html, url, b) == panels_entries(html, url, a));
    } else {
        lemma_panels_entries_concat(html, url, a, b.drop_last());
        assert((a + b).drop_last() == a + b.drop_last());
        assert((a + b).last() == b.last());
    }
}

/// A panel without a header yields no entry and leaves the entries of the
/// other panels, before and after it, as they are.
pub proof fn lemma_headerless_panel_skipped(html: Seq<char>, url: Seq<char>, panels: Seq<usize>, k: int)
    requires
        0 <= k < panels.len(),
        class_nodes_below(html, panels[k], "def-header"@).len() == 0,
    ensures
        panels_entries(html, url, panels) == panels_entries(html, url, panels.remove(k)),
{
    let before = panels.take(k);
    let after = panels.skip(k + 1);
    assert(panels == before + seq![panels[k]] + after);
    assert(panels.remove(k) == before + after);
    lemma_panels_entries_concat(html, url, before + seq![panels[k]], after);
    lemma_panels_entries_concat(html, url, before, seq![panels[k]]);
    lemma_panels_entries_concat(html, url, before, after);
    let single = seq![panels[k]];
    assert(single.drop_last() =~= Seq::<usize>::empty());
    assert(single.last() == panels[k]);
    assert(panel_entry(html, url, panels[k]) is None);
    assert(panels_entries(html, url, Seq::<usize>::empty()) == Seq::<EntryModel>::empty());
    assert(panels_entries(html, url, single) =~= Seq::<EntryModel>::empty());
    assert(panels_entries(html, url, before) + Seq::<EntryModel>::empty() =~= panels_entries(html, url, before));
}

/// A panel with a header but no tag anchors yields one entry, with no tags
/// and every other field taken from the panel.
pub proof fn lemma_header_without_tags(html: Seq<char>, url: Seq<char>, panel: usize)
    requires
        class_nodes_below(html, panel, "def-header"@).len() > 0,
        named_nodes_in_class(html, panel, "tags"@, "a"@).len() == 0,
    ensures
        panel_entry(html, url, panel) matches Some(e) && e.tags == Seq::<Seq<char>>::empty() && e.url == url
            && e.title == first_text(html, class_nodes_below(html, class_nodes_below(html, panel, "def-header"@)[0], "word"@))
            && e.category == first_text(html, class_nodes_below(html, class_nodes_below(html, panel, "def-header"@)[0], "category"@))
            && e.meaning == first_text(html, class_nodes_below(html, panel, "meaning"@))
            && e.example == first_text(html, class_nodes_below(html, panel, "example"@))
            && e.votes == votes_of(html, panel),
{
    assert(texts_of(html, named_nodes_in_class(html, panel, "tags"@, "a"@)) =~= Seq::<Seq<char>>::empty());
}

/// Votes are recorded only when the widget has both counters and both read
/// as integers; then they are exactly those two values.
pub proof fn lemma_votes_all_or_nothing(html: Seq<char>, panel: usize)
    ensures
        votes_of(html, panel) matches Some(v) ==> {
            let thumbs = class_nodes_below(html, panel, "thumbs"@);
            let ups = class_nodes_below(html, thumbs[0], "up"@);
            let downs = class_nodes_below(html, thumbs[0], "down"@);
            &&& thumbs.len() > 0
            &&& ups.len() > 0
            &&& downs.len() > 0
            &&& count_of(node_text(html, ups[0])) == Some(v.up)
            &&& count_of(node_text(html, downs[0])) == Some(v.down)
        },
{
}

/// A vote widget with an "up" counter but no "down" counter records no votes.
pub proof fn lemma_votes_without_down(html: Seq<char>, panel: usize)
    requires
        class_nodes_below(html, panel, "thumbs"@).len() > 0,
        class_nodes_below(html, class_nodes_below(html, panel, "thumbs"@)[0], "down"@).len() == 0,
    ensures
        votes_of(html, panel) is None,
{
}

} // verus!
