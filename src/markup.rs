//! A leaf page's markup, parsed once and queried by class marker.
//!
//! Nodes are named by their position in the parsed document. What the queries
//! return is stated over the page's source text.
use select::document::Document;
use select::predicate::{Class, Name, Predicate};
use vstd::prelude::*;

verus! {

#[verifier::external_type_specification]
#[verifier::external_body]
pub struct ExDocument(Document);

/// The nodes, in document order, that carry class `class`, anywhere in the
/// document parsed from `html`.
pub uninterp spec fn class_nodes_in_document(html: Seq<char>, class: Seq<char>) -> Seq<usize>;

/// The strict descendants of node `node`, in document order, that carry class
/// `class`, in the document parsed from `html`.
pub uninterp spec fn class_nodes_below(html: Seq<char>, node: usize, class: Seq<char>) -> Seq<usize>;

/// The strict descendants of node `node`, in document order, that are
/// elements named `name` and have an ancestor that carries class `class`.
pub uninterp spec fn named_nodes_in_class(html: Seq<char>, node: usize, class: Seq<char>, name: Seq<char>) -> Seq<usize>;

/// The text content of node `node` of the document parsed from `html`.
pub uninterp spec fn node_text(html: Seq<char>, node: usize) -> Seq<char>;

/// A parsed page, together with the text that it was parsed from.
pub struct Page {
    doc: Document,
    source: Ghost<Seq<char>>,
}

impl Page {
    /// The markup that this page was parsed from.
    pub closed spec fn source(&self) -> Seq<char> {
        self.source@
    }
}

/// Relies on select's `Document::from(&str)`, which parses any text into a
/// document.
#[verifier::external_body]
pub(crate) fn parse_page(html: &str) -> (r: Page)
    ensures
        r.source() == html@,
{
    Page { doc: Document::from(html), source: Ghost(html@) }
}

/// Relies on select's `Document::find` with a `Class` predicate: the nodes of
/// the whole document that carry the class, in document order.
#[verifier::external_body]
pub(crate) fn find_in_document(page: &Page, class: &str) -> (r: Vec<usize>)
    ensures
        r@ == class_nodes_in_document(page.source(), class@),
{
    page.doc.find(Class(class)).map(|n| n.index()).collect()
}

/// Relies on select's `Node::find` with a `Class` predicate: the descendants of
/// a node that carry the class, in document order.
#[verifier::external_body]
pub(crate) fn find_below(page: &Page, node: usize, class: &str) -> (r: Vec<usize>)
    ensures
        r@ == class_nodes_below(page.source(), node, class@),
{
    match page.doc.nth(node) {
        Some(n) => n.find(Class(class)).map(|m| m.index()).collect(),
        None => Vec::new(),
    }
}

/// Relies on select's `Node::find` with the predicate
/// `Class(class).descendant(Name(name))`: the descendants of a node named
/// `name` that lie inside an element of class `class`, in document order.
#[verifier::external_body]
pub(crate) fn find_named_in_class(page: &Page, node: usize, class: &str, name: &str) -> (r: Vec<usize>)
    ensures
        r@ == named_nodes_in_class(page.source(), node, class@, name@),
{
    match page.doc.nth(node) {
        Some(n) => n.find(Class(class).descendant(Name(name))).map(|m| m.index()).collect(),
        None => Vec::new(),
    }
}

/// Relies on select's `Node::text`: the text content of a node.
#[verifier::external_body]
pub(crate) fn text_of(page: &Page, node: usize) -> (r: String)
    ensures
        r@ == node_text(page.source(), node),
{
    match page.doc.nth(node) {
        Some(n) => n.text(),
        None => String::new(),
    }
}

} // verus!
