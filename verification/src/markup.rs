//! Elements of an HTML document, picked by a CSS selector.
//!
//! Parsing and matching are the work of the `scraper` crate. The library
//! sees the outcome as plain text: for each element that matches, the text
//! in it and the value of one attribute.

use vstd::prelude::*;

verus! {

/// What the library reads of one element.
pub struct Element {
    /// The text nodes in the element and below it, joined.
    pub text: String,
    /// The value of the attribute that was asked for, if the element has it.
    pub attribute: Option<String>,
}

/// An element with its texts as sequences of characters.
pub struct ElementView {
    pub text: Seq<char>,
    pub attribute: Option<Seq<char>>,
}

impl View for Element {
    type V = ElementView;

    open spec fn view(&self) -> ElementView {
        ElementView {
            text: self.text@,
            attribute: match self.attribute {
                Some(value) => Some(value@),
                None => None,
            },
        }
    }
}

/// The views of a list of elements.
pub open spec fn element_views(elements: Seq<Element>) -> Seq<ElementView> {
    elements.map_values(|e: Element| e@)
}

/// What `scraper` finds in a document: the elements that match the
/// selector, in the order in which `scraper` yields them, each with its text
/// and with its value of the attribute; `None` where the selector is not one
/// that `scraper` accepts.
pub uninterp spec fn selected(
    document: Seq<char>,
    selector: Seq<char>,
    attribute: Seq<char>,
) -> Option<Seq<ElementView>>;

/// The text of the first element that was found, if any was.
pub open spec fn first_text(found: Option<Seq<ElementView>>) -> Option<Seq<char>> {
    match found {
        Some(elements) => if elements.len() > 0 {
            Some(elements[0].text)
        } else {
            None
        },
        None => None,
    }
}

/// What came of a search, with its texts as sequences of characters.
pub open spec fn found_views(found: Option<Vec<Element>>) -> Option<Seq<ElementView>> {
    match found {
        Some(elements) => Some(element_views(elements@)),
        None => None,
    }
}

/// Parses the selector with `scraper::Selector::parse` and the document with
/// `scraper::Html::parse_document`, walks the matches of `Html::select`, and
/// reads of each its `ElementRef::text` and its `Element::attr`.
///
/// The contract claims only that the outcome depends on the three texts
/// alone.
#[verifier::external_body]
pub(crate) fn select(document: &str, selector: &str, attribute: &str) -> (found: Option<
    Vec<Element>,
>)
    ensures
        found_views(found) == selected(document@, selector@, attribute@),
{
    let selector = scraper::Selector::parse(selector).ok()?;
    let html = scraper::Html::parse_document(document);
    let elements = html.select(&selector).map(
        |element| Element {
            text: element.text().collect(),
            attribute: element.value().attr(attribute).map(String::from),
        },
    );
    Some(elements.collect())
}

/// The text of the first element of what was found.
pub fn first_text_in(found: &Option<Vec<Element>>) -> (text: Option<&str>)
    ensures
        match text {
            Some(t) => first_text(found_views(*found)) == Some(t@),
            None => first_text(found_views(*found)) is None,
        },
{
    match found {
        Some(elements) => {
            if elements.len() > 0 {
                Some(elements[0].text.as_str())
            } else {
                None
            }
        },
        None => None,
    }
}

} // verus!
