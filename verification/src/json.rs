//! A JSON value model for tool arguments, tool outputs and audit records, with
//! field lookup, deep copy and compact text rendering.

use vstd::prelude::*;
use serde_json::Value;
use crate::text::{decimal, owned, str_eq};

verus! {

/// A JSON value. Numbers are split as JSON parsers do: non-negative integers,
/// negative integers, and other numbers (kept as their text).
#[derive(Debug)]
pub enum JsonValue {
    Null,
    Bool(bool),
    UInt(u64),
    NegInt(i64),
    Decimal(String),
    Str(String),
    Array(Vec<JsonValue>),
    Object(Vec<(String, JsonValue)>),
}

/// The mathematical value of a [`JsonValue`].
#[verifier::ext_equal]
pub enum Json {
    Null,
    Bool(bool),
    UInt(u64),
    NegInt(i64),
    Decimal(Seq<char>),
    Str(Seq<char>),
    Array(Seq<Json>),
    Object(Seq<(Seq<char>, Json)>),
}

impl JsonValue {
    pub open spec fn view(&self) -> Json
        decreases self,
    {
        match self {
            JsonValue::Null => Json::Null,
            JsonValue::Bool(b) => Json::Bool(*b),
            JsonValue::UInt(n) => Json::UInt(*n),
            JsonValue::NegInt(n) => Json::NegInt(*n),
            JsonValue::Decimal(t) => Json::Decimal(t@),
            JsonValue::Str(s) => Json::Str(s@),
            JsonValue::Array(items) => Json::Array(
                Seq::new(
                    items.len() as nat,
                    |i: int|
                        if 0 <= i < items.len() {
                            items[i].view()
                        } else {
                            Json::Null
                        },
                ),
            ),
            JsonValue::Object(fields) => Json::Object(
                Seq::new(
                    fields.len() as nat,
                    |i: int|
                        if 0 <= i < fields.len() {
                            (fields[i].0@, fields[i].1.view())
                        } else {
                            (Seq::empty(), Json::Null)
                        },
                ),
            ),
        }
    }
}

/// The value bound to `key` in `fields`: the first pair whose key is `key`.
pub open spec fn lookup(fields: Seq<(Seq<char>, Json)>, key: Seq<char>) -> Option<Json>
    decreases fields.len(),
{
    if fields.len() == 0 {
        None
    } else if fields[0].0 == key {
        Some(fields[0].1)
    } else {
        lookup(fields.drop_first(), key)
    }
}

impl Json {
    /// `Value::get` with a string key: the member of an object, `None` otherwise.
    pub open spec fn get(self, key: Seq<char>) -> Option<Json> {
        match self {
            Json::Object(fields) => lookup(fields, key),
            _ => None,
        }
    }

    pub open spec fn as_str(self) -> Option<Seq<char>> {
        match self {
            Json::Str(s) => Some(s),
            _ => None,
        }
    }

    pub open spec fn as_u64(self) -> Option<u64> {
        match self {
            Json::UInt(n) => Some(n),
            _ => None,
        }
    }

    pub open spec fn as_i64(self) -> Option<i64> {
        match self {
            Json::UInt(n) => if n <= i64::MAX {
                Some(n as i64)
            } else {
                None
            },
            Json::NegInt(n) => Some(n),
            _ => None,
        }
    }

    pub open spec fn as_bool(self) -> Option<bool> {
        match self {
            Json::Bool(b) => Some(b),
            _ => None,
        }
    }

    pub open spec fn as_array(self) -> Option<Seq<Json>> {
        match self {
            Json::Array(items) => Some(items),
            _ => None,
        }
    }

    /// The string held under `key`, if the value there is a string.
    pub open spec fn str_at(self, key: Seq<char>) -> Option<Seq<char>> {
        match self.get(key) {
            Some(v) => v.as_str(),
            None => None,
        }
    }
}

/// `Some(t)` as a JSON string, `None` as `null`.
pub open spec fn opt_str_json(s: Option<Seq<char>>) -> Json {
    match s {
        Some(t) => Json::Str(t),
        None => Json::Null,
    }
}

// ---------------------------------------------------------------- access

impl JsonValue {
    pub fn get(&self, key: &str) -> (r: Option<&JsonValue>)
        ensures
            r is None <==> self@.get(key@) is None,
            r matches Some(v) ==> self@.get(key@) == Some(v@),
    {
        match self {
            JsonValue::Object(fields) => {
                let ghost fs = self@->Object_0;
                let mut i: usize = 0;
                assert(fs.skip(0) =~= fs);
                while i < fields.len()
                    invariant
                        i <= fields.len(),
                        fs.len() == fields.len(),
                        forall|j: int| 0 <= j < fields.len() ==> #[trigger] fs[j] == (fields[j].0@, fields[j].1@),
                        lookup(fs, key@) == lookup(fs.skip(i as int), key@),
                        self@.get(key@) == lookup(fs, key@),
                    decreases fields.len() - i,
                {
                    assert(fs.skip(i as int)[0] == fs[i as int]);
                    assert(fs.skip(i as int).drop_first() =~= fs.skip(i + 1));
                    if str_eq(fields[i].0.as_str(), key) {
                        return Some(&fields[i].1);
                    }
                    i = i + 1;
                }
                assert(fs.skip(i as int).len() == 0);
                None
            },
            _ => None,
        }
    }

    pub fn as_str(&self) -> (r: Option<&str>)
        ensures
            r is None <==> self@.as_str() is None,
            r matches Some(s) ==> self@.as_str() == Some(s@),
    {
        match self {
            JsonValue::Str(s) => Some(s.as_str()),
            _ => None,
        }
    }

    pub fn as_u64(&self) -> (r: Option<u64>)
        ensures
            r == self@.as_u64(),
    {
        match self {
            JsonValue::UInt(n) => Some(*n),
            _ => None,
        }
    }

    pub fn as_i64(&self) -> (r: Option<i64>)
        ensures
            r == self@.as_i64(),
    {
        match self {
            JsonValue::UInt(n) => if *n <= 0x7fff_ffff_ffff_ffff {
                Some(*n as i64)
            } else {
                None
            },
            JsonValue::NegInt(n) => Some(*n),
            _ => None,
        }
    }

    pub fn as_bool(&self) -> (r: Option<bool>)
        ensures
            r == self@.as_bool(),
    {
        match self {
            JsonValue::Bool(b) => Some(*b),
            _ => None,
        }
    }

    pub fn as_array(&self) -> (r: Option<&Vec<JsonValue>>)
        ensures
            r is None <==> self@.as_array() is None,
            r matches Some(items) ==> self@.as_array() == Some(
                Seq::new(items.len() as nat, |i: int| items[i]@),
            ),
    {
        match self {
            JsonValue::Array(items) => {
                assert(self@.as_array()->0 =~= Seq::new(items.len() as nat, |i: int| items[i]@));
                Some(items)
            },
            _ => None,
        }
    }

    /// `get(key)` followed by `as_str`, as an owned string.
    pub fn str_at(&self, key: &str) -> (r: Option<String>)
        ensures
            r is None <==> self@.str_at(key@) is None,
            r matches Some(s) ==> self@.str_at(key@) == Some(s@),
    {
        match self.get(key) {
            Some(v) => match v.as_str() {
                Some(s) => Some(owned(s)),
                None => None,
            },
            None => None,
        }
    }

    /// A JSON string holding `s`.
    pub fn string(s: &str) -> (r: JsonValue)
        ensures
            r@ == Json::Str(s@),
    {
        JsonValue::Str(owned(s))
    }

    /// The value of `s` as JSON: a string, or `null` for `None`.
    pub fn opt_string(s: &Option<String>) -> (r: JsonValue)
        ensures
            r@ == opt_str_json(match s {
                Some(t) => Some(t@),
                None => None,
            }),
    {
        match s {
            Some(t) => JsonValue::Str(t.clone()),
            None => JsonValue::Null,
        }
    }

    /// A deep copy.
    #[verifier::loop_isolation(false)]
    pub fn duplicate(&self) -> (r: Self)
        ensures
            r@ == self@,
        decreases self,
    {
        match self {
            JsonValue::Null => JsonValue::Null,
            JsonValue::Bool(b) => JsonValue::Bool(*b),
            JsonValue::UInt(n) => JsonValue::UInt(*n),
            JsonValue::NegInt(n) => JsonValue::NegInt(*n),
            JsonValue::Decimal(t) => JsonValue::Decimal(t.clone()),
            JsonValue::Str(s) => JsonValue::Str(s.clone()),
            JsonValue::Array(items) => {
                let mut out: Vec<JsonValue> = Vec::new();
                let mut i: usize = 0;
                while i < items.len()
                    invariant
                        i <= items.len(),
                        out@.len() == i,
                        forall|j: int| 0 <= j < i ==> out[j]@ == items[j]@,
                    decreases items.len() - i,
                {
                    assert(decreases_to!(*self => items[i as int]));
                    let d = items[i].duplicate();
                    out.push(d);
                    i = i + 1;
                }
                let r = JsonValue::Array(out);
                assert(r@->Array_0 =~= self@->Array_0);
                r
            },
            JsonValue::Object(fields) => {
                let mut out: Vec<(String, JsonValue)> = Vec::new();
                let mut i: usize = 0;
                while i < fields.len()
                    invariant
                        i <= fields.len(),
                        out@.len() == i,
                        forall|j: int|
                            0 <= j < i ==> out[j].0@ == fields[j].0@ && out[j].1@ == fields[j].1@,
                    decreases fields.len() - i,
                {
                    assert(decreases_to!(*self => fields[i as int]));
                    assert(decreases_to!(fields[i as int] => fields[i as int].1));
                    let d = fields[i].1.duplicate();
                    let k = fields[i].0.clone();
                    out.push((k, d));
                    i = i + 1;
                }
                let r = JsonValue::Object(out);
                assert(r@->Object_0 =~= self@->Object_0);
                r
            },
        }
    }
}

/// Builds an object from members given in order.
pub struct ObjectBuilder {
    pub fields: Vec<(String, JsonValue)>,
}

impl ObjectBuilder {
    pub open spec fn members(&self) -> Seq<(Seq<char>, Json)> {
        Seq::new(self.fields.len() as nat, |i: int| (self.fields[i].0@, self.fields[i].1@))
    }

    pub fn new() -> (b: ObjectBuilder)
        ensures
            b.members() == Seq::<(Seq<char>, Json)>::empty(),
    {
        let b = ObjectBuilder { fields: Vec::new() };
        assert(b.members() =~= Seq::<(Seq<char>, Json)>::empty());
        b
    }

    pub fn add(&mut self, key: &str, value: JsonValue)
        ensures
            final(self).members() == old(self).members().push((key@, value@)),
    {
        self.fields.push((owned(key), value));
        assert(self.members() =~= old(self).members().push((key@, value@)));
    }

    pub fn build(self) -> (r: JsonValue)
        ensures
            r@ == Json::Object(self.members()),
    {
        let r = JsonValue::Object(self.fields);
        assert(r@->Object_0 =~= self.members());
        r
    }
}

/// Collects values into an array.
pub fn array_of(items: Vec<JsonValue>) -> (r: JsonValue)
    ensures
        r@ == Json::Array(Seq::new(items.len() as nat, |i: int| items[i]@)),
{
    let r = JsonValue::Array(items);
    assert(r@->Array_0 =~= Seq::new(items.len() as nat, |i: int| items[i]@));
    r
}

// ---------------------------------------------------------------- compact text

/// Decimal notation of a signed integer.
pub open spec fn signed_decimal(n: int) -> Seq<char> {
    if n < 0 {
        seq!['-'] + decimal((-n) as nat)
    } else {
        decimal(n as nat)
    }
}

/// `serde_json::Value`, carried through as an opaque value.
#[verifier::external_type_specification]
#[verifier::external_body]
pub struct ExSerdeValue(serde_json::Value);

/// The compact text that `serde_json::to_string` writes for the value `v`
/// (object members in key order, each key once).
pub uninterp spec fn compact_json(v: Json) -> Seq<char>;

/// The `serde_json::Value` with the content of `v`, variant for variant; a
/// decimal goes through `serde_json::Number`'s parser. Nothing is claimed of
/// the result, which only `to_text` reads.
#[verifier::external_body]
fn serde_value(v: &JsonValue) -> serde_json::Value {
    match v {
        JsonValue::Null => serde_json::Value::Null,
        JsonValue::Bool(b) => serde_json::Value::Bool(*b),
        JsonValue::UInt(n) => serde_json::Value::from(*n),
        JsonValue::NegInt(n) => serde_json::Value::from(*n),
        JsonValue::Decimal(t) => t.parse::<serde_json::Number>().map(serde_json::Value::Number).unwrap_or(serde_json::Value::Null),
        JsonValue::Str(s) => serde_json::Value::String(s.clone()),
        JsonValue::Array(items) => serde_json::Value::Array(items.iter().map(serde_value).collect()),
        JsonValue::Object(fields) => serde_json::Value::Object(fields.iter().map(|(k, x)| (k.clone(), serde_value(x))).collect()),
    }
}

/// The value that `serde_json::from_str::<serde_json::Value>` reads from
/// `text`, or `None` where it refuses the text.
pub uninterp spec fn parsed_json(text: Seq<char>) -> Option<Json>;

/// The library value with the content of `v`, variant for variant: an
/// integer that fits `u64` is `UInt`, another that fits `i64` is `NegInt`,
/// any other number keeps its text; object members stay in the map's order.
/// Nothing is claimed of the result, which only `parse_json` hands on.
#[verifier::external_body]
fn from_serde_value(v: &Value) -> JsonValue {
    match v {
        Value::Null => JsonValue::Null,
        Value::Bool(b) => JsonValue::Bool(*b),
        Value::Number(n) => match (n.as_u64(), n.as_i64()) {
            (Some(u), _) => JsonValue::UInt(u),
            (None, Some(i)) => JsonValue::NegInt(i),
            (None, None) => JsonValue::Decimal(n.to_string()),
        },
        Value::String(s) => JsonValue::Str(s.clone()),
        Value::Array(items) => JsonValue::Array(items.iter().map(from_serde_value).collect()),
        Value::Object(m) => JsonValue::Object(m.iter().map(|(k, x)| (k.clone(), from_serde_value(x))).collect()),
    }
}

/// Parses `text` as JSON with `serde_json::from_str::<serde_json::Value>`.
/// Claimed: the outcome is a function of the text alone ([`parsed_json`]);
/// which texts parse, and to what, is left to serde_json.
#[verifier::external_body]
pub fn parse_json(text: &str) -> (r: Option<JsonValue>)
    ensures
        match r {
            Some(v) => parsed_json(text@) == Some(v@),
            None => parsed_json(text@) is None,
        },
{
    serde_json::from_str::<serde_json::Value>(text).ok().map(|v| from_serde_value(&v))
}

impl JsonValue {
    /// The compact JSON text of the value, from `serde_json::to_string` on the
    /// same content. Claimed: the text is a function of the value alone
    /// ([`compact_json`]); which text it is, is left to serde_json.
    #[verifier::external_body]
    pub(crate) fn to_text(&self) -> (r: String)
        ensures
            r@ == compact_json(self@),
    {
        serde_json::to_string(&serde_value(self)).unwrap_or_default()
    }
}

} // verus!
