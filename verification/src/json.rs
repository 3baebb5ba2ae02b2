//! JSON values and their mathematical model.

use crate::text::str_eq;
use vstd::prelude::*;

verus! {

/// A JSON number. One that is neither an unsigned nor a negative 64-bit integer
/// is kept by its numeral.
#[derive(Debug)]
pub enum Number {
    Unsigned(u64),
    Negative(i64),
    Other(String),
}

/// A JSON value. Where an object lists a key more than once, the last entry counts.
#[derive(Debug)]
pub enum Json {
    Null,
    Bool(bool),
    Number(Number),
    Str(String),
    Array(Vec<Json>),
    Object(Vec<(String, Json)>),
}

/// The model of a number.
pub ghost enum NumberView {
    Unsigned(u64),
    Negative(i64),
    Other(Seq<char>),
}

/// The model of a JSON value: an object is a map from keys to values.
pub ghost enum JsonView {
    Null,
    Bool(bool),
    Number(NumberView),
    Str(Seq<char>),
    Array(Seq<JsonView>),
    Object(Map<Seq<char>, JsonView>),
}

impl View for Number {
    type V = NumberView;

    open spec fn view(&self) -> NumberView {
        match *self {
            Number::Unsigned(n) => NumberView::Unsigned(n),
            Number::Negative(n) => NumberView::Negative(n),
            Number::Other(s) => NumberView::Other(s@),
        }
    }
}

/// The index of the last entry under `key`, or -1.
pub open spec fn last_entry(entries: Seq<(String, Json)>, key: Seq<char>) -> int
    decreases entries.len(),
{
    if entries.len() == 0 {
        -1
    } else if entries.last().0@ == key {
        entries.len() - 1
    } else {
        last_entry(entries.drop_last(), key)
    }
}

/// The model of a JSON value.
pub open spec fn model(value: Json) -> JsonView
    decreases value,
{
    match value {
        Json::Null => JsonView::Null,
        Json::Bool(b) => JsonView::Bool(b),
        Json::Number(n) => JsonView::Number(n@),
        Json::Str(s) => JsonView::Str(s@),
        Json::Array(items) => JsonView::Array(
            Seq::new(
                items@.len(),
                |i: int|
                    if 0 <= i < items@.len() {
                        model(items@[i])
                    } else {
                        JsonView::Null
                    },
            ),
        ),
        Json::Object(entries) => JsonView::Object(
            Map::new(
                |k: Seq<char>| last_entry(entries@, k) >= 0,
                |k: Seq<char>|
                    {
                        let i = last_entry(entries@, k);
                        if 0 <= i < entries@.len() {
                            model(entries@[i].1)
                        } else {
                            JsonView::Null
                        }
                    },
            ),
        ),
    }
}

impl View for Json {
    type V = JsonView;

    open spec fn view(&self) -> JsonView {
        model(*self)
    }
}

impl JsonView {
    /// The value under a key; nothing where the value is no object or lacks the key.
    pub open spec fn field(self, key: Seq<char>) -> Option<JsonView> {
        match self {
            JsonView::Object(map) => if map.contains_key(key) {
                Some(map[key])
            } else {
                None
            },
            _ => None,
        }
    }

    /// The object with `value` under `key`; a value that is no object as it is.
    pub open spec fn with(self, key: Seq<char>, value: JsonView) -> JsonView {
        match self {
            JsonView::Object(map) => JsonView::Object(map.insert(key, value)),
            _ => self,
        }
    }

    /// The object without `key`; a value that is no object as it is.
    pub open spec fn without(self, key: Seq<char>) -> JsonView {
        match self {
            JsonView::Object(map) => JsonView::Object(map.remove(key)),
            _ => self,
        }
    }

    /// The text of a string.
    pub open spec fn text(self) -> Option<Seq<char>> {
        match self {
            JsonView::Str(s) => Some(s),
            _ => None,
        }
    }

    /// The text of the string under a key.
    pub open spec fn text_field(self, key: Seq<char>) -> Option<Seq<char>> {
        match self.field(key) {
            Some(v) => v.text(),
            None => None,
        }
    }

    /// The items of an array.
    pub open spec fn items(self) -> Option<Seq<JsonView>> {
        match self {
            JsonView::Array(s) => Some(s),
            _ => None,
        }
    }

    /// The number, where it is an unsigned 64-bit integer.
    pub open spec fn unsigned(self) -> Option<u64> {
        match self {
            JsonView::Number(NumberView::Unsigned(n)) => Some(n),
            _ => None,
        }
    }

    /// The number, where it is a signed 64-bit integer.
    pub open spec fn signed(self) -> Option<int> {
        match self {
            JsonView::Number(NumberView::Unsigned(n)) => if n <= i64::MAX {
                Some(n as int)
            } else {
                None
            },
            JsonView::Number(NumberView::Negative(n)) => Some(n as int),
            _ => None,
        }
    }

    /// The truth value.
    pub open spec fn truth(self) -> Option<bool> {
        match self {
            JsonView::Bool(b) => Some(b),
            _ => None,
        }
    }
}

/// The empty object.
pub open spec fn empty_object() -> JsonView {
    JsonView::Object(Map::empty())
}

/// The view of an optional value.
pub open spec fn opt_json(v: Option<Json>) -> Option<JsonView> {
    match v {
        Some(v) => Some(v@),
        None => None,
    }
}

/// The view of an optional borrowed value.
pub open spec fn opt_ref(v: Option<&Json>) -> Option<JsonView> {
    match v {
        Some(v) => Some(v@),
        None => None,
    }
}

/// The views of a sequence of values.
pub open spec fn json_views(s: Seq<Json>) -> Seq<JsonView> {
    s.map_values(|v: Json| v@)
}

/// The map of an object's entries.
pub open spec fn entries_view(entries: Seq<(String, Json)>) -> Map<Seq<char>, JsonView> {
    Map::new(
        |k: Seq<char>| last_entry(entries, k) >= 0,
        |k: Seq<char>| entries[last_entry(entries, k)].1@,
    )
}

pub(crate) proof fn last_entry_bounds(entries: Seq<(String, Json)>, key: Seq<char>)
    ensures
        -1 <= last_entry(entries, key) < entries.len(),
        last_entry(entries, key) >= 0 ==> entries[last_entry(entries, key)].0@ == key,
        forall|j: int|
            last_entry(entries, key) < j < entries.len() ==> (#[trigger] entries[j]).0@ != key,
    decreases entries.len(),
{
    if entries.len() > 0 && entries.last().0@ != key {
        last_entry_bounds(entries.drop_last(), key);
        assert forall|j: int| last_entry(entries, key) < j < entries.len() implies (
        #[trigger] entries[j]).0@ != key by {
            if j < entries.len() - 1 {
                assert(entries.drop_last()[j] == entries[j]);
            }
        }
    }
}

proof fn last_entry_is(entries: Seq<(String, Json)>, key: Seq<char>, i: int)
    requires
        0 <= i < entries.len(),
        entries[i].0@ == key,
        forall|j: int| i < j < entries.len() ==> (#[trigger] entries[j]).0@ != key,
    ensures
        last_entry(entries, key) == i,
{
    last_entry_bounds(entries, key);
}

proof fn last_entry_none(entries: Seq<(String, Json)>, key: Seq<char>)
    requires
        forall|j: int| 0 <= j < entries.len() ==> (#[trigger] entries[j]).0@ != key,
    ensures
        last_entry(entries, key) == -1,
{
    last_entry_bounds(entries, key);
}

/// The model of an object is the map of its entries.
pub proof fn object_view(v: Json)
    requires
        v is Object,
    ensures
        v@ == JsonView::Object(entries_view(v->Object_0@)),
{
    let entries = v->Object_0@;
    assert forall|k: Seq<char>| last_entry(entries, k) < entries.len() by {
        last_entry_bounds(entries, k);
    }
    assert(v@->Object_0 =~= entries_view(entries));
}

/// The model of an array is the sequence of its items' models.
pub proof fn array_view(v: Json)
    requires
        v is Array,
    ensures
        v@ == JsonView::Array(json_views(v->Array_0@)),
{
    assert(v@->Array_0 =~= json_views(v->Array_0@));
}

proof fn push_entry(entries: Seq<(String, Json)>, entry: (String, Json))
    ensures
        entries_view(entries.push(entry)) == entries_view(entries).insert(entry.0@, entry.1@),
{
    let more = entries.push(entry);
    assert(more.drop_last() =~= entries);
    assert forall|k: Seq<char>| true implies #[trigger] last_entry(more, k) == (if k == entry.0@ {
        entries.len() as int
    } else {
        last_entry(entries, k)
    }) by {}
    assert forall|k: Seq<char>| last_entry(entries, k) < entries.len() by {
        last_entry_bounds(entries, k);
    }
    assert(entries_view(more) =~= entries_view(entries).insert(entry.0@, entry.1@));
}

proof fn remove_entry(entries: Seq<(String, Json)>, i: int, key: Seq<char>)
    requires
        0 <= i < entries.len(),
        entries[i].0@ == key,
    ensures
        entries_view(entries.remove(i)).remove(key) == entries_view(entries).remove(key),
{
    let less = entries.remove(i);
    assert forall|k: Seq<char>| k != key implies {
        let a = #[trigger] last_entry(entries, k);
        let b = last_entry(less, k);
        (a >= 0 <==> b >= 0) && (a >= 0 ==> entries[a].1@ == less[b].1@)
    } by {
        last_entry_bounds(entries, k);
        let a = last_entry(entries, k);
        if a >= 0 {
            let b = if a < i {
                a
            } else {
                a - 1
            };
            assert(less[b] == entries[a]);
            assert forall|j: int| b < j < less.len() implies (#[trigger] less[j]).0@ != k by {
                if j < i {
                    assert(less[j] == entries[j]);
                } else {
                    assert(less[j] == entries[j + 1]);
                }
            }
            last_entry_is(less, k, b);
        } else {
            assert forall|j: int| 0 <= j < less.len() implies (#[trigger] less[j]).0@ != k by {
                if j < i {
                    assert(less[j] == entries[j]);
                } else {
                    assert(less[j] == entries[j + 1]);
                }
            }
            last_entry_none(less, k);
        }
    }
    assert(entries_view(less).remove(key) =~= entries_view(entries).remove(key));
}

/// Takes every entry under `key` out.
fn drop_key(entries: &mut Vec<(String, Json)>, key: &str)
    ensures
        entries_view(final(entries)@) == entries_view(old(entries)@).remove(key@),
{
    let mut i: usize = 0;
    while i < entries.len()
        invariant
            i <= entries@.len(),
            entries_view(entries@).remove(key@) == entries_view(old(entries)@).remove(key@),
            forall|j: int| 0 <= j < i ==> (#[trigger] entries@[j]).0@ != key@,
        decreases entries@.len() - i,
    {
        if str_eq(&entries[i].0, key) {
            proof {
                remove_entry(entries@, i as int, key@);
            }
            let ghost before = entries@;
            let _gone = entries.remove(i);
            assert forall|j: int| 0 <= j < i implies (#[trigger] entries@[j]).0@ != key@ by {
                assert(entries@[j] == before[j]);
            }
        } else {
            i = i + 1;
        }
    }
    proof {
        last_entry_none(entries@, key@);
        assert(entries_view(entries@) =~= entries_view(entries@).remove(key@));
    }
}

impl Number {
    /// Another number with the same value.
    pub fn copy(&self) -> (r: Number)
        ensures
            r@ == self@,
    {
        match self {
            Number::Unsigned(n) => Number::Unsigned(*n),
            Number::Negative(n) => Number::Negative(*n),
            Number::Other(s) => Number::Other(s.clone()),
        }
    }
}

impl Json {
    /// The string with the given text.
    pub fn string(s: &str) -> (r: Json)
        ensures
            r@ == JsonView::Str(s@),
    {
        Json::Str(s.to_owned())
    }

    /// The array of the given items.
    pub fn array(items: Vec<Json>) -> (r: Json)
        ensures
            r@ == JsonView::Array(json_views(items@)),
    {
        let r = Json::Array(items);
        proof {
            array_view(r);
        }
        r
    }

    /// The unsigned number.
    pub fn unsigned(n: u64) -> (r: Json)
        ensures
            r@ == JsonView::Number(NumberView::Unsigned(n)),
    {
        Json::Number(Number::Unsigned(n))
    }

    /// The object without entries.
    pub fn object() -> (r: Json)
        ensures
            r@ == empty_object(),
    {
        let r = Json::Object(Vec::new());
        proof {
            object_view(r);
            assert(entries_view(r->Object_0@) =~= Map::empty());
        }
        r
    }

    /// The value under a key.
    pub fn field(&self, key: &str) -> (r: Option<&Json>)
        ensures
            opt_ref(r) == self@.field(key@),
            r is Some ==> decreases_to!(*self => *r->0),
    {
        match self {
            Json::Object(entries) => {
                proof {
                    object_view(*self);
                }
                let mut i: usize = entries.len();
                while i > 0
                    invariant
                        i <= entries@.len(),
                        self@ == JsonView::Object(entries_view(entries@)),
                        *self == Json::Object(*entries),
                        forall|j: int| i <= j < entries@.len() ==> (#[trigger] entries@[j]).0@ != key@,
                    decreases i,
                {
                    i = i - 1;
                    if str_eq(&entries[i].0, key) {
                        proof {
                            last_entry_is(entries@, key@, i as int);
                        }
                        assert(decreases_to!(*entries => entries[i as int]));
                        return Some(&entries[i].1);
                    }
                }
                proof {
                    last_entry_none(entries@, key@);
                }
                None
            },
            _ => None,
        }
    }

    /// The object with `value` under `key`; a value that is no object as it is.
    pub fn with(self, key: &str, value: Json) -> (r: Json)
        ensures
            r@ == self@.with(key@, value@),
    {
        match self {
            Json::Object(entries) => {
                proof {
                    object_view(self);
                }
                let mut entries = entries;
                drop_key(&mut entries, key);
                let entry = (key.to_owned(), value);
                proof {
                    push_entry(entries@, entry);
                }
                let ghost kept = entries_view(entries@);
                entries.push(entry);
                let r = Json::Object(entries);
                proof {
                    object_view(r);
                    assert(kept.insert(key@, value@) =~= self@->Object_0.insert(key@, value@));
                }
                r
            },
            other => other,
        }
    }

    /// The object without `key`; a value that is no object as it is.
    pub fn without(self, key: &str) -> (r: Json)
        ensures
            r@ == self@.without(key@),
    {
        match self {
            Json::Object(entries) => {
                proof {
                    object_view(self);
                }
                let mut entries = entries;
                drop_key(&mut entries, key);
                let r = Json::Object(entries);
                proof {
                    object_view(r);
                }
                r
            },
            other => other,
        }
    }

    /// The text of a string.
    pub fn text(&self) -> (r: Option<&str>)
        ensures
            self@.text() == (match r {
                Some(s) => Some(s@),
                None => None,
            }),
    {
        match self {
            Json::Str(s) => Some(s.as_str()),
            _ => None,
        }
    }

    /// The text of the string under a key.
    pub fn text_field(&self, key: &str) -> (r: Option<&str>)
        ensures
            self@.text_field(key@) == (match r {
                Some(s) => Some(s@),
                None => None,
            }),
    {
        match self.field(key) {
            Some(v) => v.text(),
            None => None,
        }
    }

    /// The items of an array.
    pub fn items(&self) -> (r: Option<&Vec<Json>>)
        ensures
            self@.items() == (match r {
                Some(v) => Some(json_views(v@)),
                None => None,
            }),
            r is Some ==> decreases_to!(*self => *r->0),
    {
        match self {
            Json::Array(v) => {
                proof {
                    array_view(*self);
                }
                Some(v)
            },
            _ => None,
        }
    }

    /// Whether the value is an object.
    pub fn is_object(&self) -> (r: bool)
        ensures
            r == (self@ is Object),
    {
        matches!(self, Json::Object(_))
    }

    /// Whether the value is an array.
    pub fn is_array(&self) -> (r: bool)
        ensures
            r == (self@ is Array),
    {
        matches!(self, Json::Array(_))
    }

    /// The number, where it is an unsigned 64-bit integer.
    pub fn as_unsigned(&self) -> (r: Option<u64>)
        ensures
            r == self@.unsigned(),
    {
        match self {
            Json::Number(Number::Unsigned(n)) => Some(*n),
            _ => None,
        }
    }

    /// The number, where it is a signed 64-bit integer.
    pub fn as_signed(&self) -> (r: Option<i64>)
        ensures
            self@.signed() == (match r {
                Some(n) => Some(n as int),
                None => None,
            }),
    {
        match self {
            Json::Number(Number::Unsigned(n)) => if *n <= i64::MAX as u64 {
                Some(*n as i64)
            } else {
                None
            },
            Json::Number(Number::Negative(n)) => Some(*n),
            _ => None,
        }
    }

    /// The truth value.
    pub fn as_truth(&self) -> (r: Option<bool>)
        ensures
            r == self@.truth(),
    {
        match self {
            Json::Bool(b) => Some(*b),
            _ => None,
        }
    }

    /// Another value with the same model.
    pub fn copy(&self) -> (r: Json)
        ensures
            r@ == self@,
        decreases self,
    {
        match self {
            Json::Null => Json::Null,
            Json::Bool(b) => Json::Bool(*b),
            Json::Number(n) => Json::Number(n.copy()),
            Json::Str(s) => Json::Str(s.clone()),
            Json::Array(items) => {
                let mut out: Vec<Json> = Vec::new();
                let mut i: usize = 0;
                while i < items.len()
                    invariant
                        i <= items@.len(),
                        *self is Array && self->Array_0 == *items,
                        out@.len() == i,
                        forall|j: int| 0 <= j < i ==> (#[trigger] out@[j])@ == items@[j]@,
                    decreases items@.len() - i,
                {
                    assert(decreases_to!(*items => items[i as int]));
                    assert(decreases_to!(*self => *items));
                    assert(decreases_to!(*self => items[i as int]));
                    out.push(items[i].copy());
                    i = i + 1;
                }
                proof {
                    array_view(*self);
                    assert(json_views(out@) =~= json_views(items@));
                }
                Json::array(out)
            },
            Json::Object(entries) => {
                let mut out: Vec<(String, Json)> = Vec::new();
                let mut i: usize = 0;
                assert(entries@.take(0) =~= out@);
                while i < entries.len()
                    invariant
                        i <= entries@.len(),
                        *self is Object && self->Object_0 == *entries,
                        entries_view(out@) == entries_view(entries@.take(i as int)),
                    decreases entries@.len() - i,
                {
                    assert(decreases_to!(*entries => entries[i as int]));
                    assert(decreases_to!(*self => entries[i as int].1));
                    let entry = (entries[i].0.clone(), entries[i].1.copy());
                    proof {
                        push_entry(out@, entry);
                        push_entry(entries@.take(i as int), entries@[i as int]);
                        assert(entries@.take(i as int).push(entries@[i as int]) =~= entries@.take(
                            i + 1,
                        ));
                    }
                    out.push(entry);
                    i = i + 1;
                }
                let r = Json::Object(out);
                proof {
                    assert(entries@.take(i as int) =~= entries@);
                    object_view(r);
                    object_view(*self);
                }
                r
            },
        }
    }
}

/// What is put into an object under a key is found there, and nothing else changes; what is
/// taken out is found no more, and nothing else changes.
pub proof fn objects_are_changed_key_by_key(
    v: JsonView,
    key: Seq<char>,
    value: JsonView,
    other: Seq<char>,
)
    requires
        v is Object,
    ensures
        v.with(key, value) is Object && v.without(key) is Object,
        v.with(key, value).field(key) == Some(value),
        v.without(key).field(key) is None,
        other != key ==> v.with(key, value).field(other) == v.field(other),
        other != key ==> v.without(key).field(other) == v.field(other),
        empty_object().field(key) is None,
{
}

/// What a value is read as is what it is, and nothing else: a text as a text, a number in its
/// range as a number, a truth value as one, a list as one.
pub proof fn values_are_read_as_they_are(v: JsonView, n: u64, s: Seq<char>, b: bool)
    ensures
        v.text() == Some(s) <==> v == JsonView::Str(s),
        v.unsigned() == Some(n) <==> v == JsonView::Number(NumberView::Unsigned(n)),
        v.truth() == Some(b) <==> v == JsonView::Bool(b),
        v.items() is Some <==> v is Array,
        v is Array ==> v.items() == Some(v->Array_0),
        v.signed() is Some ==> i64::MIN <= v.signed()->0 <= i64::MAX,
        n <= i64::MAX ==> JsonView::Number(NumberView::Unsigned(n)).signed() == Some(n as int),
        n > i64::MAX ==> JsonView::Number(NumberView::Unsigned(n)).signed() is None,
        !(v is Object) ==> v.field(s) is None && v.text_field(s) is None,
        v.text_field(s) is Some <==> v.field(s) is Some && v.field(s)->0 is Str,
{
}

} // verus!
