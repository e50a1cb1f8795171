//! Queries on marked-up pages, answered by the `select` crate.
use crate::text::views;
use select::document::Document;
use select::predicate::{Attr, Class, Name};
use vstd::prelude::*;

verus! {

/// The serialised elements of `doc` named `tag` whose class list holds `class`,
/// in document order.
pub uninterp spec fn elements_html(doc: Seq<char>, tag: Seq<char>, class: Seq<char>) -> Seq<
    Seq<char>,
>;

/// The text content of the first element of `doc` named `tag`, if any.
pub uninterp spec fn tag_text(doc: Seq<char>, tag: Seq<char>) -> Option<Seq<char>>;

/// The text content of the first element of `doc` whose attribute `attr` is
/// exactly `value`, if any.
pub uninterp spec fn attr_text(doc: Seq<char>, attr: Seq<char>, value: Seq<char>) -> Option<
    Seq<char>,
>;

/// Relies on `select`: `Document::from` parses `doc`, `find(Name(tag))` then
/// `filter(Class(class))` select the elements in document order, and `Node::html`
/// serialises each one.
#[verifier::external_body]
pub(crate) fn find_elements(doc: &str, tag: &str, class: &str) -> (r: Vec<String>)
    ensures
        views(r@) == elements_html(doc@, tag@, class@),
{
    let document = Document::from(doc);
    let selection = document.find(Name(tag)).into_selection().filter(Class(class));
    let mut out = Vec::new();
    for node in selection.iter() {
        out.push(node.html());
    }
    out
}

/// Relies on `select`: `Document::from` parses `doc`, `find(Name(tag)).next()` is
/// the first element named `tag`, and `Node::text` concatenates its text nodes.
#[verifier::external_body]
pub(crate) fn first_tag_text(doc: &str, tag: &str) -> (r: Option<String>)
    ensures
        match r {
            Some(s) => tag_text(doc@, tag@) == Some(s@),
            None => tag_text(doc@, tag@) is None,
        },
{
    let document = Document::from(doc);
    let found = match document.find(Name(tag)).next() {
        Some(node) => Some(node.text()),
        None => None,
    };
    found
}

/// Relies on `select`: `Document::from` parses `doc`, `find(Attr(attr, value)).next()`
/// is the first element whose attribute `attr` equals `value`, and `Node::text`
/// concatenates its text nodes.
#[verifier::external_body]
pub(crate) fn first_attr_text(doc: &str, attr: &str, value: &str) -> (r: Option<String>)
    ensures
        match r {
            Some(s) => attr_text(doc@, attr@, value@) == Some(s@),
            None => attr_text(doc@, attr@, value@) is None,
        },
{
    let document = Document::from(doc);
    let found = match document.find(Attr(attr, value)).next() {
        Some(node) => Some(node.text()),
        None => None,
    };
    found
}

} // verus!
