//! Reading JSON text.

use crate::json::{entries_view, json_views, last_entry_bounds, object_view, Json, JsonView, Number};
use vstd::prelude::*;

verus! {

/// `serde_json::Value`, the tree that the JSON reader builds.
#[verifier::external_type_specification]
#[verifier::external_body]
pub struct ExValue(serde_json::Value);

/// What a tree of the JSON reader holds.
pub uninterp spec fn value_model(value: serde_json::Value) -> JsonView;

/// What reading a byte string as JSON gives: the value, or the reason why the bytes
/// are no JSON.
pub uninterp spec fn json_parsed(bytes: Seq<u8>) -> Result<JsonView, Seq<char>>;

/// The view of a reading.
pub open spec fn read_view(r: Result<Json, String>) -> Result<JsonView, Seq<char>> {
    match r {
        Ok(v) => Ok(v@),
        Err(e) => Err(e@),
    }
}

/// The uppermost level of a tree.
pub(crate) enum Level {
    Null,
    Bool(bool),
    Number(Number),
    Str(String),
    Array(Vec<serde_json::Value>),
    Object(Vec<(String, serde_json::Value)>),
}

/// Whether a level is the uppermost one of a value.
pub(crate) open spec fn is_level_of(level: Level, value: JsonView) -> bool {
    match level {
        Level::Null => value == JsonView::Null,
        Level::Bool(b) => value == JsonView::Bool(b),
        Level::Number(n) => value == JsonView::Number(n@),
        Level::Str(s) => value == JsonView::Str(s@),
        Level::Array(items) => value == JsonView::Array(
            items@.map_values(|v: serde_json::Value| value_model(v)),
        ),
        Level::Object(entries) => {
            &&& value is Object
            &&& value->Object_0.dom().finite()
            &&& forall|i: int|
                0 <= i < entries@.len() ==> {
                    &&& value->Object_0.contains_key((#[trigger] entries@[i]).0@)
                    &&& value->Object_0[entries@[i].0@] == value_model(entries@[i].1)
                }
            &&& forall|k: Seq<char>|
                #[trigger] value->Object_0.contains_key(k) ==> exists|i: int|
                    0 <= i < entries@.len() && (#[trigger] entries@[i]).0@ == k
        },
    }
}

/// `serde_json::from_slice` reads bytes as JSON into a tree, or says why they are
/// none.
#[verifier::external_body]
fn read_value(bytes: &[u8]) -> (r: Result<serde_json::Value, String>)
    ensures
        json_parsed(bytes@) == (match r {
            Ok(v) => Ok(value_model(v)),
            Err(e) => Err(e@),
        }),
{
    match serde_json::from_slice::<serde_json::Value>(bytes) {
        Ok(value) => Ok(value),
        Err(error) => Err(error.to_string()),
    }
}

/// The variants of `serde_json::Value`: an object's entries have distinct keys, and
/// a number that is neither an unsigned nor a negative 64-bit integer is handed out
/// by its numeral.
#[verifier::external_body]
fn open_value(value: serde_json::Value) -> (r: Level)
    ensures
        is_level_of(r, value_model(value)),
{
    match value {
        serde_json::Value::Null => Level::Null,
        serde_json::Value::Bool(b) => Level::Bool(b),
        serde_json::Value::Number(n) => Level::Number(match (n.as_u64(), n.as_i64()) {
            (Some(u), _) => Number::Unsigned(u),
            (None, Some(i)) => Number::Negative(i),
            (None, None) => Number::Other(n.to_string()),
        }),
        serde_json::Value::String(s) => Level::Str(s),
        serde_json::Value::Array(items) => Level::Array(items),
        serde_json::Value::Object(entries) => Level::Object(entries.into_iter().collect()),
    }
}

/// The tree as a JSON value of this library.
fn json_of(value: serde_json::Value) -> (r: Json)
    ensures
        r@ == value_model(value),
    decreases value_model(value),
{
    let ghost whole = value_model(value);
    match open_value(value) {
        Level::Null => Json::Null,
        Level::Bool(b) => Json::Bool(b),
        Level::Number(n) => Json::Number(n),
        Level::Str(s) => Json::Str(s),
        Level::Array(items) => {
            let ghost all = items@;
            let ghost models = items@.map_values(|v: serde_json::Value| value_model(v));
            let mut out: Vec<Json> = Vec::new();
            for item in it: items
                invariant
                    it.seq() == all,
                    whole == value_model(value),
                    whole is Array && whole->Array_0 == models,
                    models == all.map_values(|v: serde_json::Value| value_model(v)),
                    out@.len() == it.index(),
                    forall|i: int| 0 <= i < out@.len() ==> (#[trigger] out@[i])@ == models[i],
            {
                let ghost at = out@.len() as int;
                assert(item == all[at]);
                assert(models[at] == value_model(item));
                assert(decreases_to!(whole->Array_0 => whole->Array_0[at]));
                out.push(json_of(item));
            }
            assert(json_views(out@) =~= models);
            Json::array(out)
        },
        Level::Object(entries) => {
            let ghost all = entries@;
            let ghost map = whole->Object_0;
            let mut out: Vec<(String, Json)> = Vec::new();
            for entry in it: entries
                invariant
                    it.seq() == all,
                    whole == value_model(value),
                    whole is Object && whole->Object_0 == map,
                    map.dom().finite(),
                    forall|i: int|
                        0 <= i < all.len() ==> {
                            &&& map.contains_key((#[trigger] all[i]).0@)
                            &&& map[all[i].0@] == value_model(all[i].1)
                        },
                    out@.len() == it.index(),
                    forall|i: int|
                        0 <= i < out@.len() ==> {
                            &&& (#[trigger] out@[i]).0@ == all[i].0@
                            &&& out@[i].1@ == map[all[i].0@]
                        },
            {
                let ghost at = out@.len() as int;
                assert(entry == all[at]);
                let (key, held) = entry;
                assert(map.dom().contains(key@));
                assert(decreases_to!(map => map[key@]));
                out.push((key, json_of(held)));
            }
            let r = Json::Object(out);
            proof {
                object_view(r);
                assert forall|k: Seq<char>| true implies {
                    &&& #[trigger] entries_view(out@).contains_key(k) == map.contains_key(k)
                    &&& map.contains_key(k) ==> entries_view(out@)[k] == map[k]
                } by {
                    last_entry_bounds(out@, k);
                    if map.contains_key(k) {
                        let i = choose|i: int| 0 <= i < all.len() && (#[trigger] all[i]).0@ == k;
                        assert(out@[i].0@ == k);
                    }
                }
                assert(entries_view(out@) =~= map);
            }
            r
        },
    }
}

/// Reads bytes as JSON.
pub fn parse_json(bytes: &[u8]) -> (r: Result<Json, String>)
    ensures
        read_view(r) == json_parsed(bytes@),
{
    match read_value(bytes) {
        Ok(value) => Ok(json_of(value)),
        Err(e) => Err(e),
    }
}

} // verus!
