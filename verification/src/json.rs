//! JSON values as the server logic reads and writes them, with a
//! mathematical view in which strings are character sequences.

use vstd::prelude::*;
use crate::text::str_eq;

verus! {

/// A JSON value. Numbers are kept in their textual form, since the logic
/// only carries them through (a request id) or writes integers it knows.
#[derive(Debug, PartialEq)]
pub enum JsonValue {
    Null,
    Bool(bool),
    Number(String),
    Str(String),
    Array(Vec<JsonValue>),
    Object(Vec<(String, JsonValue)>),
}

/// The mathematical view of a [`JsonValue`].
pub enum Json {
    Null,
    Bool(bool),
    Number(Seq<char>),
    Str(Seq<char>),
    Array(Seq<Json>),
    Object(Seq<(Seq<char>, Json)>),
}

impl JsonValue {
    /// The value with every string taken by its characters.
    pub open spec fn model(&self) -> Json
        decreases self,
    {
        match self {
            JsonValue::Null => Json::Null,
            JsonValue::Bool(b) => Json::Bool(*b),
            JsonValue::Number(n) => Json::Number(n@),
            JsonValue::Str(s) => Json::Str(s@),
            JsonValue::Array(items) => Json::Array(
                Seq::new(
                    items@.len(),
                    |i: int|
                        if 0 <= i < items@.len() {
                            proof {
                                assert(decreases_to!(items => items@));
                                assert(decreases_to!(items@ => items@[i]));
                            }
                            items@[i].model()
                        } else {
                            Json::Null
                        },
                ),
            ),
            JsonValue::Object(fields) => Json::Object(
                Seq::new(
                    fields@.len(),
                    |i: int|
                        if 0 <= i < fields@.len() {
                            proof {
                                assert(decreases_to!(fields => fields@));
                                assert(decreases_to!(fields@ => fields@[i]));
                                assert(decreases_to!(fields@[i] => fields@[i].1));
                            }
                            (fields@[i].0@, fields@[i].1.model())
                        } else {
                            (Seq::empty(), Json::Null)
                        },
                ),
            ),
        }
    }
}

impl View for JsonValue {
    type V = Json;

    open spec fn view(&self) -> Json {
        self.model()
    }
}


/// The value of the first field named `key` among `fields`.
pub open spec fn lookup(fields: Seq<(Seq<char>, Json)>, key: Seq<char>) -> Option<Json>
    decreases fields.len(),
{
    if fields.len() == 0 {
        None
    } else if fields[0].0 == key {
        Some(fields[0].1)
    } else {
        lookup(fields.drop_first(), key)
    }
}

/// What `value.get(key)` reads: the field `key` of an object, `None` for
/// an object without it and for any value that is not an object.
pub open spec fn member(value: Json, key: Seq<char>) -> Option<Json> {
    match value {
        Json::Object(fields) => lookup(fields, key),
        _ => None,
    }
}

/// What `value.as_str()` reads: the characters of a JSON string.
pub open spec fn string_of_json(value: Json) -> Option<Seq<char>> {
    match value {
        Json::Str(s) => Some(s),
        _ => None,
    }
}

/// The string field `key` of `value`, where `value` is an object whose
/// field `key` is a string (`value.get(key).and_then(|v| v.as_str())`).
pub open spec fn string_member(value: Json, key: Seq<char>) -> Option<Seq<char>> {
    match member(value, key) {
        Some(v) => string_of_json(v),
        None => None,
    }
}

impl JsonValue {
    /// A copy of this value.
    #[verifier::loop_isolation(false)]
    pub fn duplicate(&self) -> (r: JsonValue)
        ensures
            r@ == self@,
        decreases self,
    {
        match self {
            JsonValue::Null => JsonValue::Null,
            JsonValue::Bool(b) => JsonValue::Bool(*b),
            JsonValue::Number(n) => JsonValue::Number(n.clone()),
            JsonValue::Str(t) => JsonValue::Str(t.clone()),
            JsonValue::Array(items) => {
                let n = items.len();
                let mut out: Vec<JsonValue> = Vec::new();
                let mut i: usize = 0;
                while i < n
                    invariant
                        n == items@.len(),
                        i <= n,
                        out@.len() == i,
                        forall|k: int| 0 <= k < i ==> (#[trigger] out@[k])@ == items@[k]@,
                    decreases n - i,
                {
                    proof {
                        assert(decreases_to!(items => items@));
                        assert(decreases_to!(items@ => items@[i as int]));
                    }
                    let c = items[i].duplicate();
                    out.push(c);
                    i = i + 1;
                }
                let r = JsonValue::Array(out);
                proof {
                    let rs = match r@ {
                        Json::Array(x) => x,
                        _ => Seq::empty(),
                    };
                    let ss = match self@ {
                        Json::Array(x) => x,
                        _ => Seq::empty(),
                    };
                    assert(rs =~= ss);
                }
                r
            },
            JsonValue::Object(fields) => {
                let n = fields.len();
                let mut out: Vec<(String, JsonValue)> = Vec::new();
                let mut i: usize = 0;
                while i < n
                    invariant
                        n == fields@.len(),
                        i <= n,
                        out@.len() == i,
                        forall|k: int| 0 <= k < i ==> (#[trigger] out@[k]).0@ == fields@[k].0@,
                        forall|k: int| 0 <= k < i ==> (#[trigger] out@[k]).1@ == fields@[k].1@,
                    decreases n - i,
                {
                    proof {
                        assert(decreases_to!(fields => fields@));
                        assert(decreases_to!(fields@ => fields@[i as int]));
                        assert(decreases_to!(fields@[i as int] => fields@[i as int].1));
                    }
                    let c = fields[i].1.duplicate();
                    let key = fields[i].0.clone();
                    out.push((key, c));
                    i = i + 1;
                }
                let r = JsonValue::Object(out);
                proof {
                    let rs = match r@ {
                        Json::Object(x) => x,
                        _ => Seq::empty(),
                    };
                    let ss = match self@ {
                        Json::Object(x) => x,
                        _ => Seq::empty(),
                    };
                    assert(rs =~= ss);
                }
                r
            },
        }
    }

    /// The field `key` of an object (`Value::get`).
    pub fn get(&self, key: &str) -> (r: Option<&JsonValue>)
        ensures
            match r {
                Some(v) => member(self@, key@) == Some(v@),
                None => member(self@, key@) is None,
            },
    {
        match self {
            JsonValue::Object(fields) => {
                let ghost model = self@;
                let ghost all = match model {
                    Json::Object(f) => f,
                    _ => Seq::empty(),
                };
                assert(all.len() == fields@.len());
                assert(all.skip(0) =~= all);
                let n = fields.len();
                let mut i: usize = 0;
                while i < n
                    invariant
                        n == fields@.len(),
                        all.len() == n,
                        i <= n,
                        forall|k: int| 0 <= k < n ==> (#[trigger] all[k]) == (fields@[k].0@, fields@[k].1@),
                        member(model, key@) == lookup(all.skip(i as int), key@),
                        model == self@,
                        model == Json::Object(all),
                    decreases n - i,
                {
                    assert(all.skip(i as int)[0] == all[i as int]);
                    if str_eq(fields[i].0.as_str(), key) {
                        return Some(&fields[i].1);
                    }
                    assert(all.skip(i as int).drop_first() =~= all.skip(i + 1));
                    i = i + 1;
                }
                assert(all.skip(n as int).len() == 0);
                None
            },
            _ => None,
        }
    }

    /// The characters of a JSON string (`Value::as_str`).
    pub fn as_str(&self) -> (r: Option<&String>)
        ensures
            match r {
                Some(s) => string_of_json(self@) == Some(s@),
                None => string_of_json(self@) is None,
            },
    {
        match self {
            JsonValue::Str(s) => Some(s),
            _ => None,
        }
    }

    /// The string field `key` of an object.
    pub fn string_field(&self, key: &str) -> (r: Option<&String>)
        ensures
            match r {
                Some(s) => string_member(self@, key@) == Some(s@),
                None => string_member(self@, key@) is None,
            },
    {
        match self.get(key) {
            Some(v) => v.as_str(),
            None => None,
        }
    }
}


/// The view of the fields of an object, in order.
pub open spec fn fields_model(fields: Seq<(String, JsonValue)>) -> Seq<(Seq<char>, Json)> {
    fields.map_values(|f: (String, JsonValue)| (f.0@, f.1@))
}

/// The view of the items of an array, in order.
pub open spec fn items_model(items: Seq<JsonValue>) -> Seq<Json> {
    items.map_values(|v: JsonValue| v@)
}

/// A JSON string holding the characters of `s`.
pub fn json_str(s: &str) -> (r: JsonValue)
    ensures
        r@ == Json::Str(s@),
{
    JsonValue::Str(s.to_string())
}

/// An object with the given fields, in the given order.
pub fn object_of(fields: Vec<(String, JsonValue)>) -> (r: JsonValue)
    ensures
        r@ == Json::Object(fields_model(fields@)),
{
    let r = JsonValue::Object(fields);
    proof {
        let rs = match r@ {
            Json::Object(x) => x,
            _ => Seq::empty(),
        };
        assert(rs =~= fields_model(fields@));
    }
    r
}

/// An array with the given items, in the given order.
pub fn array_of(items: Vec<JsonValue>) -> (r: JsonValue)
    ensures
        r@ == Json::Array(items_model(items@)),
{
    let r = JsonValue::Array(items);
    proof {
        let rs = match r@ {
            Json::Array(x) => x,
            _ => Seq::empty(),
        };
        assert(rs =~= items_model(items@));
    }
    r
}

/// An object field named `key`.
pub fn entry(key: &str, value: JsonValue) -> (r: (String, JsonValue))
    ensures
        r.0@ == key@,
        r.1@ == value@,
{
    (key.to_string(), value)
}

} // verus!
