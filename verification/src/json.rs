//! Reading fields out of JSON text (request bodies and service replies) with `serde_json`.
use vstd::prelude::*;

verus! {

/// The text of the error `serde_json::from_str::<Value>` reports for `text`; `None` when
/// `text` is one JSON value.
pub uninterp spec fn json_error_text(text: Seq<char>) -> Option<Seq<char>>;

/// The member `key` of the JSON value in `text` when it is a string (`Value::get`, then
/// `Value::as_str`).
pub uninterp spec fn json_str_member(text: Seq<char>, key: Seq<char>) -> Option<Seq<char>>;

/// The member `key` of the JSON value in `text` when it is an array: each item's string, or
/// `None` for an item that is not a string (`Value::get`, `Value::as_array`, then
/// `Value::as_str` on each item).
pub uninterp spec fn json_str_array_member(text: Seq<char>, key: Seq<char>) -> Option<Seq<Option<Seq<char>>>>;

pub open spec fn opt_string_view(o: Option<String>) -> Option<Seq<char>> {
    match o {
        Some(s) => Some(s@),
        None => None,
    }
}

pub open spec fn opt_strings_view(o: Option<Vec<Option<String>>>) -> Option<Seq<Option<Seq<char>>>> {
    match o {
        Some(v) => Some(Seq::new(v@.len(), |i: int| opt_string_view(v@[i]))),
        None => None,
    }
}

/// `serde_json::from_str::<Value>(text)`, then for each key `Value::get` and
/// `Value::as_str`. Claims that it fails exactly when [`json_error_text`] says so, with
/// that text, and that each entry is [`json_str_member`] of its key.
#[verifier::external_body]
pub(crate) fn json_str_fields(text: &str, keys: &[&str]) -> (r: Result<Vec<Option<String>>, String>)
    ensures
        r matches Err(e) ==> json_error_text(text@) == Some(e@),
        r is Ok ==> json_error_text(text@) is None,
        r matches Ok(v) ==> v@.len() == keys@.len(),
        r matches Ok(v) ==> (forall|i: int| 0 <= i < v@.len() ==> opt_string_view(#[trigger] v@[i]) == json_str_member(text@, keys@[i]@)),
{
    let v: serde_json::Value = serde_json::from_str(text).map_err(|e| e.to_string())?;
    Ok(keys.iter().map(|k| v.get(*k).and_then(|x| x.as_str()).map(String::from)).collect())
}

/// `serde_json::from_str::<Value>(text)`, then `Value::get(key)`, `Value::as_array` and
/// `Value::as_str` on each item. Claims only that the result is [`json_str_array_member`]
/// of the arguments.
#[verifier::external_body]
pub(crate) fn json_str_array(text: &str, key: &str) -> (r: Option<Vec<Option<String>>>)
    ensures
        opt_strings_view(r) == json_str_array_member(text@, key@),
{
    let v: serde_json::Value = serde_json::from_str(text).ok()?;
    Some(v.get(key)?.as_array()?.iter().map(|x| x.as_str().map(String::from)).collect())
}

/// The string items of an array, in order (items that are not strings left out).
pub open spec fn string_items_of(items: Seq<Option<Seq<char>>>) -> Seq<Seq<char>>
    decreases items.len(),
{
    if items.len() == 0 {
        Seq::empty()
    } else {
        let rest = string_items_of(items.drop_last());
        match items.last() {
            Some(s) => rest.push(s),
            None => rest,
        }
    }
}

/// The strings of a JSON string array; none when there is no array.
pub open spec fn string_items(a: Option<Seq<Option<Seq<char>>>>) -> Seq<Seq<char>> {
    match a {
        Some(items) => string_items_of(items),
        None => Seq::empty(),
    }
}

/// The member `key` of the JSON object in `text` when it is an array, its string items kept
/// (see [`string_items`]).
pub fn json_strings(text: &str, key: &str) -> (r: Vec<String>)
    ensures
        r@.len() == string_items(json_str_array_member(text@, key@)).len(),
        forall|i: int| 0 <= i < r@.len() ==> (#[trigger] r@[i])@ == string_items(json_str_array_member(text@, key@))[i],
{
    let mut out: Vec<String> = Vec::new();
    let items = match json_str_array(text, key) {
        Some(items) => items,
        None => return out,
    };
    let ghost a = json_str_array_member(text@, key@)->Some_0;
    let mut i: usize = 0;
    proof {
        assert(a.take(0) =~= Seq::<Option<Seq<char>>>::empty());
    }
    while i < items.len()
        invariant
            i <= items@.len(),
            a.len() == items@.len(),
            forall|k: int| 0 <= k < a.len() ==> a[k] == opt_string_view(#[trigger] items@[k]),
            out@.len() == string_items_of(a.take(i as int)).len(),
            forall|k: int| 0 <= k < out@.len() ==> (#[trigger] out@[k])@ == string_items_of(a.take(i as int))[k],
        decreases items.len() - i,
    {
        proof {
            assert(a.take(i + 1).drop_last() =~= a.take(i as int));
            assert(a.take(i + 1).last() == a[i as int]);
        }
        match &items[i] {
            Some(s) => {
                out.push(s.clone());
            },
            None => {},
        }
        i += 1;
    }
    proof {
        assert(a.take(a.len() as int) =~= a);
    }
    out
}

} // verus!
