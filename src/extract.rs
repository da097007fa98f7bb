//! Turning a fetched page into a resource: the title and the description are
//! read from the markup, and an absent one becomes an empty string.
use crate::record::{Date, Resource};
use select::document::Document;
use select::predicate::{And, Attr, Name};
use vstd::prelude::*;

verus! {

/// The text of the first `title` element of the markup, if it has one.
pub uninterp spec fn title_in(markup: Seq<char>) -> Option<Seq<char>>;

/// The `content` attribute of the first `meta` element of the markup whose
/// `name` attribute is `description`, if there is such an element and it has
/// that attribute.
pub uninterp spec fn description_in(markup: Seq<char>) -> Option<Seq<char>>;

/// The characters of an optional string.
pub open spec fn text_of(o: Option<String>) -> Option<Seq<char>> {
    match o {
        Some(s) => Some(s@),
        None => None,
    }
}

/// A field's text, with the empty string where it is absent.
pub open spec fn or_empty(o: Option<Seq<char>>) -> Seq<char> {
    match o {
        Some(s) => s,
        None => Seq::empty(),
    }
}

/// Relies on select's `Document::from` (an HTML parse of the markup),
/// `Document::find` with the `Name("title")` predicate and `Node::text`: the
/// text of the first title element, which depends on the markup alone.
#[verifier::external_body]
fn first_title(markup: &str) -> (r: Option<String>)
    ensures
        text_of(r) == title_in(markup@),
{
    match Document::from(markup).find(Name("title")).next() {
        Some(node) => Some(node.text()),
        None => None,
    }
}

/// Relies on select's `Document::from` (an HTML parse of the markup),
/// `Document::find` with `meta` elements named `description`, and
/// `Node::attr("content")` of the first of them: it depends on the markup
/// alone.
#[verifier::external_body]
fn first_description(markup: &str) -> (r: Option<String>)
    ensures
        text_of(r) == description_in(markup@),
{
    let document = Document::from(markup);
    match document.find(And(Name("meta"), Attr("name", "description"))).next() {
        Some(node) => node.attr("content").map(str::to_string),
        None => None,
    }
}

/// The title and the description of a page, each absent where the markup
/// does not have it.
pub fn extract_title_and_description(markup: &str) -> (r: (Option<String>, Option<String>))
    ensures
        text_of(r.0) == title_in(markup@),
        text_of(r.1) == description_in(markup@),
{
    let title = first_title(markup);
    let description = first_description(markup);
    (title, description)
}

fn text_or_empty(o: Option<String>) -> (r: String)
    ensures
        r@ == or_empty(text_of(o)),
{
    match o {
        Some(s) => s,
        None => String::new(),
    }
}

/// The resource for a page served from `url`, whose title and description
/// were found to be `title` and `description`: an absent field becomes the
/// empty string.
pub fn resource_from_fields(
    url: String,
    title: Option<String>,
    description: Option<String>,
    timestamp: Date,
) -> (r: Resource)
    ensures
        r.url@ == url@,
        r.title@ == or_empty(text_of(title)),
        r.description@ == or_empty(text_of(description)),
        r.timestamp == timestamp,
{
    Resource {
        url,
        title: text_or_empty(title),
        description: text_or_empty(description),
        timestamp,
    }
}

/// The resource for a page served from `url` (its final address, after any
/// redirect) with the body `markup`, fetched for a record of `timestamp`.
pub fn resource_from_page(url: String, markup: &str, timestamp: Date) -> (r: Resource)
    ensures
        r.url@ == url@,
        r.title@ == or_empty(title_in(markup@)),
        r.description@ == or_empty(description_in(markup@)),
        r.timestamp == timestamp,
{
    let (title, description) = extract_title_and_description(markup);
    resource_from_fields(url, title, description, timestamp)
}

} // verus!
