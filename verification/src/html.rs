//! What a selector finds in an HTML document.

use vstd::prelude::*;
use crate::text::text_view;

verus! {

/// An element that a selector found: the text inside it, and the value of
/// the attribute that was asked for, where the element has that attribute.
pub type Found = (String, Option<String>);

/// The same, as a mathematical value.
pub type FoundView = (Seq<char>, Option<Seq<char>>);

/// What the CSS selector `selector` finds in the HTML document `html`: of
/// each element that it matches, in the order in which the parsed document
/// yields them, the text inside it and the value of its attribute
/// `attribute`; or, where `selector` is no selector, the message that says
/// why.
pub uninterp spec fn selection(html: Seq<char>, selector: Seq<char>, attribute: Seq<char>) -> Result<
    Seq<FoundView>,
    Seq<char>,
>;

/// The views of `found`.
pub open spec fn found_views(found: Seq<Found>) -> Seq<FoundView> {
    found.map_values(|element: Found| (element.0@, text_view(element.1)))
}

/// The view of the outcome of a selection.
pub open spec fn outcome_view(outcome: Result<Vec<Found>, String>) -> Result<
    Seq<FoundView>,
    Seq<char>,
> {
    match outcome {
        Ok(found) => Ok(found_views(found@)),
        Err(message) => Err(message@),
    }
}

/// `scraper::Html::parse_document` on `html`, `scraper::Selector::parse` on
/// `selector`, and `Html::select` with the two; of each element that comes
/// out, all of `ElementRef::text` and `Element::attr` of `attribute`. An
/// error of `Selector::parse` is handed on as its message.
#[verifier::external_body]
pub(crate) fn select(html: &str, selector: &str, attribute: &str) -> (outcome: Result<
    Vec<Found>,
    String,
>)
    ensures
        outcome_view(outcome) == selection(html@, selector@, attribute@),
{
    let document = ::scraper::Html::parse_document(html);
    match ::scraper::Selector::parse(selector) {
        Ok(parsed) => Ok(
            document.select(&parsed).map(
                |element| (element.text().collect(), element.value().attr(attribute).map(str::to_owned)),
            ).collect(),
        ),
        Err(error) => Err(error.to_string()),
    }
}

} // verus!
