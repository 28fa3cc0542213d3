//! The boundary to the HTML parser. The library never reads the parser's own
//! tree: one call turns a document into a flat stream of open/text/close
//! events, and everything after that is the library's own verified code.

use vstd::prelude::*;
use crate::dom::{Attr, EventView, RawEvent, events_view};

verus! {

#[verifier::external_type_specification]
#[verifier::external_body]
pub struct ExScraperNode(scraper::node::Node);

#[verifier::external_type_specification]
#[verifier::external_body]
#[verifier::reject_recursive_types(T)]
pub struct ExEgoTreeEdge<'a, T: 'a>(ego_tree::iter::Edge<'a, T>);

/// What the HTML parser produces for a document, walked depth-first: an open
/// event (name and attributes) and a close event for each element, a text
/// event for each text node, and a placeholder for every other node kind.
/// Parsing is a function of the document text alone.
pub uninterp spec fn parsed_events(s: Seq<char>) -> Seq<EventView>;

/// Relies on ego_tree's traversal edges and scraper's node values: an edge
/// opens or closes one node, which is an element (with a name and attributes),
/// a text node, or another node kind (document and fragment roots, doctypes,
/// comments, processing instructions).
#[verifier::external_body]
fn raw_event(edge: ego_tree::iter::Edge<'_, scraper::node::Node>) -> RawEvent {
    match edge {
        ego_tree::iter::Edge::Open(n) => match n.value() {
            scraper::node::Node::Element(e) => RawEvent::Open(
                e.name().to_string(),
                e.attrs().map(|(k, v)| Attr { name: k.to_string(), value: v.to_string() }).collect(),
            ),
            scraper::node::Node::Text(t) => RawEvent::Text(t.text.to_string()),
            _ => RawEvent::Other,
        },
        ego_tree::iter::Edge::Close(n) => match n.value() {
            scraper::node::Node::Element(_) => RawEvent::Close,
            _ => RawEvent::Other,
        },
    }
}

/// Relies on scraper::Html::parse_document: parses a string of HTML into a
/// node tree (parsing never fails; a malformed document still yields a tree),
/// walked here in depth-first order.
#[verifier::external_body]
pub(crate) fn parse_events(html: &str) -> (r: Vec<RawEvent>)
    ensures
        events_view(r@) == parsed_events(html@),
{
    let doc = scraper::Html::parse_document(html);
    doc.tree.root().traverse().map(raw_event).collect()
}

} // verus!
