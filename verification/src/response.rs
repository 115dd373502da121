//! The items of a response: each point's payload with its highlight.

use crate::highlight::{
    display_text, highlighted, post_process_response_text, regex_accepts, regex_matches,
    word_pattern, HighlightError,
};
use crate::point::{Payload, ScoredPoint};
use vstd::prelude::*;

verus! {

/// One result as the client gets it: the payload as stored, and the text to
/// display.
#[derive(Debug, PartialEq, Eq)]
pub struct ResponseItem {
    pub payload: Payload,
    pub highlight: String,
}

/// The highlight of a payload for a query: that of its text, and nothing
/// for a payload without a text.
pub open spec fn highlight_of(payload: Payload, query: Seq<char>) -> Seq<char> {
    match payload.text() {
        Some(text) => highlighted(
            text,
            regex_matches(word_pattern(query), true, true, display_text(text)),
        ),
        None => Seq::empty(),
    }
}

/// Makes the response item of a point. The payload is passed on as it is.
/// Fails exactly where the point has a text and the regex engine refuses the
/// pattern of the query.
pub fn format_item(point: ScoredPoint, query: &str) -> (result: Result<
    ResponseItem,
    HighlightError,
>)
    ensures
        result is Ok <==> (point.payload.text() is None || regex_accepts(
            word_pattern(query@),
            true,
            true,
        )),
        result matches Ok(item) ==> item.payload == point.payload && item.highlight@
            == highlight_of(point.payload, query@),
{
    let highlight = match point.payload.text_value() {
        Some(text) => match post_process_response_text(text, query) {
            Ok(highlight) => highlight,
            Err(error) => {
                return Err(error);
            },
        },
        None => String::new(),
    };
    Ok(ResponseItem { payload: point.payload, highlight })
}

/// Makes the response items of a page, in the order of the page. Fails
/// exactly where a point of the page has a text and the regex engine refuses
/// the pattern of the query.
pub fn format_response(points: Vec<ScoredPoint>, query: &str) -> (result: Result<
    Vec<ResponseItem>,
    HighlightError,
>)
    ensures
        result is Ok <==> ((forall|i: int|
            0 <= i < points@.len() ==> (#[trigger] points@[i]).payload.text() is None)
            || regex_accepts(word_pattern(query@), true, true)),
        result matches Ok(items) ==> items@.len() == points@.len() && forall|i: int|
            0 <= i < items@.len() ==> (#[trigger] items@[i]).payload == points@[i].payload
                && items@[i].highlight@ == highlight_of(points@[i].payload, query@),
{
    let ghost page = points@;
    let mut items: Vec<ResponseItem> = Vec::new();
    for point in turn: points
        invariant
            turn.seq() == page,
            items@.len() == turn.index(),
            forall|i: int|
                0 <= i < turn.index() ==> (#[trigger] page[i]).payload.text() is None
                    || regex_accepts(word_pattern(query@), true, true),
            forall|i: int|
                0 <= i < items@.len() ==> (#[trigger] items@[i]).payload == page[i].payload
                    && items@[i].highlight@ == highlight_of(page[i].payload, query@),
    {
        match format_item(point, query) {
            Ok(item) => {
                items.push(item);
            },
            Err(error) => {
                return Err(error);
            },
        }
    }
    Ok(items)
}

} // verus!
