//! Columns that hold a list as JSON text.

use vstd::prelude::*;

use crate::error::{ClientError, ClientResult};
use crate::json::{
    ints_view, items_view, json_read, lemma_items_view, parse_json, texts_view, Json, JsonView,
};
use crate::text::{joined, signed_digits, views};

verus! {

/// The strings of an array of strings; `None` for anything else.
pub open spec fn strings_in(items: Seq<JsonView>) -> Option<Seq<Seq<char>>> {
    if forall|i: int| 0 <= i < items.len() ==> (#[trigger] items[i]).text() is Some {
        Some(items.map_values(|v: JsonView| v.text()->0))
    } else {
        None
    }
}

/// The whole numbers of an array of `i64` numbers; `None` for anything else.
pub open spec fn numbers_in(items: Seq<JsonView>) -> Option<Seq<int>> {
    if forall|i: int| 0 <= i < items.len() ==> (#[trigger] items[i]).int64() is Some {
        Some(items.map_values(|v: JsonView| v.int64()->0))
    } else {
        None
    }
}

/// The list of strings that a column holds: empty unless it is a JSON array of
/// strings.
pub open spec fn stored_strings(raw: Seq<char>) -> Seq<Seq<char>> {
    match json_read(raw) {
        Ok(JsonView::Array(items)) => match strings_in(items) {
            Some(strings) => strings,
            None => Seq::empty(),
        },
        _ => Seq::empty(),
    }
}

/// The list of ids that a column holds: empty unless it is a JSON array of `i64`
/// numbers.
pub open spec fn stored_numbers(raw: Seq<char>) -> Seq<int> {
    match json_read(raw) {
        Ok(JsonView::Array(items)) => match numbers_in(items) {
            Some(numbers) => numbers,
            None => Seq::empty(),
        },
        _ => Seq::empty(),
    }
}

/// Read a column that holds a list of strings.
pub fn parse_list(raw: &str) -> (result: Vec<String>)
    ensures
        views(result@) == stored_strings(raw@),
{
    let empty: Vec<String> = Vec::new();
    proof {
        assert(views(empty@) =~= Seq::empty());
    }
    let items = match parse_json(raw) {
        Ok(Json::Array(items)) => items,
        _ => {
            return empty;
        },
    };
    let ghost all = items_view(items@);
    proof {
        lemma_items_view(items@);
    }
    let mut out: Vec<String> = Vec::new();
    let mut i: usize = 0;
    while i < items.len()
        invariant
            i <= items@.len(),
            all == items_view(items@),
            all.len() == items@.len(),
            forall|j: int| 0 <= j < items@.len() ==> #[trigger] all[j] == items@[j]@,
            json_read(raw@) == Ok::<JsonView, Seq<char>>(
                JsonView::Array(all),
            ),
            views(empty@) == Seq::<Seq<char>>::empty(),
            out@.len() == i,
            forall|j: int| 0 <= j < i ==> (#[trigger] all[j]).text() == Some(out@[j]@),
        decreases items@.len() - i,
    {
        match items[i].as_str() {
            Some(s) => {
                assert(all[i as int].text() == Some(s@));
                out.push(s.to_owned());
            },
            None => {
                assert(all[i as int].text() is None);
                return empty;
            },
        }
        i = i + 1;
    }
    proof {
        assert(views(out@) =~= all.map_values(|v: JsonView| v.text()->0));
    }
    out
}

/// Read a column that holds a list of ids.
pub fn parse_ids(raw: &str) -> (result: Vec<i64>)
    ensures
        result@.map_values(|n: i64| n as int) == stored_numbers(raw@),
{
    let empty: Vec<i64> = Vec::new();
    proof {
        assert(empty@.map_values(|n: i64| n as int) =~= Seq::empty());
    }
    let items = match parse_json(raw) {
        Ok(Json::Array(items)) => items,
        _ => {
            return empty;
        },
    };
    let ghost all = items_view(items@);
    proof {
        lemma_items_view(items@);
    }
    let mut out: Vec<i64> = Vec::new();
    let mut i: usize = 0;
    while i < items.len()
        invariant
            i <= items@.len(),
            all == items_view(items@),
            all.len() == items@.len(),
            forall|j: int| 0 <= j < items@.len() ==> #[trigger] all[j] == items@[j]@,
            json_read(raw@) == Ok::<JsonView, Seq<char>>(
                JsonView::Array(all),
            ),
            empty@.map_values(|n: i64| n as int) == Seq::<int>::empty(),
            out@.len() == i,
            forall|j: int| 0 <= j < i ==> (#[trigger] all[j]).int64() == Some(out@[j] as int),
        decreases items@.len() - i,
    {
        match items[i].as_i64() {
            Some(n) => {
                assert(all[i as int].int64() == Some(n as int));
                out.push(n);
            },
            None => {
                assert(all[i as int].int64() is None);
                return empty;
            },
        }
        i = i + 1;
    }
    proof {
        assert(out@.map_values(|n: i64| n as int) =~= all.map_values(
            |v: JsonView| v.int64()->0,
        ));
    }
    out
}

// -- writing ---------------------------------------------------------------

/// Whether a text reads as the given JSON value.
pub open spec fn reads_as(text: Seq<char>, value: JsonView) -> bool {
    json_read(text) == Ok::<JsonView, Seq<char>>(value)
}

/// The JSON text of a list of strings.
pub uninterp spec fn strings_text(items: Seq<Seq<char>>) -> Seq<char>;

/// `serde_json::to_string` on a list of strings, which cannot fail there; the text
/// is called [`strings_text`], and it reads back as the array of those strings.
#[verifier::external_body]
fn write_strings(items: &Vec<String>) -> (result: Result<String, String>)
    ensures
        result is Ok,
        result->Ok_0@ == strings_text(views(items@)),
        reads_as(result->Ok_0@, texts_view(items@)),
{
    serde_json::to_string(items).map_err(|error| error.to_string())
}

/// The JSON text of a list of whole numbers: their decimal forms, with commas between
/// them, in square brackets.
pub open spec fn numbers_text(items: Seq<i64>) -> Seq<char> {
    "["@ + joined(items.map_values(|n: i64| signed_digits(n as int)), ","@) + "]"@
}

/// `serde_json::to_string` on a list of whole numbers, which cannot fail there; it
/// writes [`numbers_text`], which reads back as the array of those numbers.
#[verifier::external_body]
fn write_numbers(items: &Vec<i64>) -> (result: Result<String, String>)
    ensures
        result is Ok,
        result->Ok_0@ == numbers_text(items@),
        reads_as(result->Ok_0@, ints_view(items@)),
{
    serde_json::to_string(items).map_err(|error| error.to_string())
}

/// Write a column that holds a list of strings; reading it gives the list back.
pub fn store_list(items: &Vec<String>) -> (result: ClientResult<String>)
    ensures
        result matches Ok(text) && text@ == strings_text(views(items@)) && stored_strings(text@)
            == views(items@),
{
    match write_strings(items) {
        Ok(text) => {
            proof {
                let array = items@.map_values(|s: String| JsonView::Text(s@));
                assert forall|i: int| 0 <= i < array.len() implies (#[trigger] array[i]).text()
                    == Some(items@[i]@) by {}
                assert(array.map_values(|v: JsonView| v.text()->0) =~= views(items@));
            }
            Ok(text)
        },
        Err(message) => Err(ClientError::json(message.as_str())),
    }
}

/// Write a column that holds a list of ids; reading it gives the list back.
pub fn store_ids(items: &Vec<i64>) -> (result: ClientResult<String>)
    ensures
        result matches Ok(text) && text@ == numbers_text(items@) && stored_numbers(text@)
            == items@.map_values(|n: i64| n as int),
{
    match write_numbers(items) {
        Ok(text) => {
            proof {
                let array = items@.map_values(|n: i64| JsonView::Int(n as int));
                assert forall|i: int| 0 <= i < array.len() implies (#[trigger] array[i]).int64()
                    == Some(items@[i] as int) by {}
                assert(array.map_values(|v: JsonView| v.int64()->0) =~= items@.map_values(
                    |n: i64| n as int,
                ));
            }
            Ok(text)
        },
        Err(message) => Err(ClientError::json(message.as_str())),
    }
}

} // verus!
