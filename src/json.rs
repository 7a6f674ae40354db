//! A generic JSON value that the extraction rules read, with the lookups
//! they need and the calls into serde_json that parse and print it.
use vstd::prelude::*;
use vstd::string::*;

verus! {

/// A decoded JSON value. Objects keep their entries in the order the
/// parser produced them; numbers keep their decimal text.
#[derive(Debug)]
pub enum Json {
    Null,
    Bool(bool),
    Number(String),
    Str(String),
    Array(Vec<Json>),
    Object(Vec<(String, Json)>),
}

/// The value stored under `key` in a sequence of object entries: the first
/// entry with that key.
pub open spec fn lookup(entries: Seq<(String, Json)>, key: Seq<char>) -> Option<Json>
    decreases entries.len(),
{
    if entries.len() == 0 {
        None
    } else if entries[0].0@ == key {
        Some(entries[0].1)
    } else {
        lookup(entries.drop_first(), key)
    }
}

/// `v[key]` when `v` is an object holding `key`, else nothing.
pub open spec fn field(v: Json, key: Seq<char>) -> Option<Json> {
    match v {
        Json::Object(entries) => lookup(entries@, key),
        _ => None,
    }
}

/// The text of a value that is present and a JSON string.
pub open spec fn text_of(v: Option<Json>) -> Option<Seq<char>> {
    match v {
        Some(Json::Str(s)) => Some(s@),
        _ => None,
    }
}

/// `v[key]` as a string, if it is one.
pub open spec fn str_field(v: Json, key: Seq<char>) -> Option<Seq<char>> {
    text_of(field(v, key))
}

/// What serde_json parses `text` into (a `Value`, read entry by entry).
pub uninterp spec fn parsed_json(text: Seq<char>) -> Option<Json>;

/// serde_json's pretty-printed rendering of a value.
pub uninterp spec fn pretty_text(v: Json) -> Seq<char>;

/// serde_json's compact rendering of a value.
pub uninterp spec fn compact_text(v: Json) -> Seq<char>;

#[verifier::external_type_specification]
#[verifier::external_body]
pub struct ExJsonValue(serde_json::Value);

/// Character-wise equality of two strings.
pub fn str_eq(a: &str, b: &str) -> (r: bool)
    ensures
        r == (a@ == b@),
{
    let n = a.unicode_len();
    if n != b.unicode_len() {
        return false;
    }
    let mut i: usize = 0;
    while i < n
        invariant
            n == a@.len(),
            n == b@.len(),
            0 <= i <= n,
            forall|j: int| 0 <= j < i ==> a@[j] == b@[j],
        decreases n - i,
    {
        if a.get_char(i) != b.get_char(i) {
            return false;
        }
        i += 1;
    }
    assert(a@ =~= b@);
    true
}

impl Json {
    /// `self[key]`: the value under `key` if `self` is an object that holds it.
    pub fn get(&self, key: &str) -> (r: Option<&Json>)
        ensures
            match r {
                Some(x) => field(*self, key@) == Some(*x),
                None => field(*self, key@) is None,
            },
    {
        match self {
            Json::Object(entries) => {
                let mut i: usize = 0;
                assert(entries@.skip(0) =~= entries@);
                while i < entries.len()
                    invariant
                        0 <= i <= entries@.len(),
                        field(*self, key@) == lookup(entries@.skip(i as int), key@),
                    decreases entries@.len() - i,
                {
                    assert(entries@.skip(i as int).drop_first() =~= entries@.skip(i + 1));
                    if str_eq(entries[i].0.as_str(), key) {
                        return Some(&entries[i].1);
                    }
                    i += 1;
                }
                None
            },
            _ => None,
        }
    }

    /// The text of `self` if it is a JSON string.
    pub fn as_str(&self) -> (r: Option<&str>)
        ensures
            match r {
                Some(s) => text_of(Some(*self)) == Some(s@),
                None => text_of(Some(*self)) is None,
            },
    {
        match self {
            Json::Str(s) => Some(s.as_str()),
            _ => None,
        }
    }

    /// Whether `self` is a JSON object.
    pub fn is_object(&self) -> (r: bool)
        ensures
            r == (*self is Object),
    {
        match self {
            Json::Object(_) => true,
            _ => false,
        }
    }
}

/// `v[key]` as a string, if it is one.
pub fn get_str<'a>(v: &'a Json, key: &str) -> (r: Option<&'a str>)
    ensures
        match r {
            Some(s) => str_field(*v, key@) == Some(s@),
            None => str_field(*v, key@) is None,
        },
{
    match v.get(key) {
        Some(x) => x.as_str(),
        None => None,
    }
}

/// The elements of `v[key]` when it is an array.
pub fn array_field_items<'a>(v: &'a Json, key: &str) -> (r: Option<&'a Vec<Json>>)
    ensures
        match r {
            Some(items) => field(*v, key@) == Some(Json::Array(*items)),
            None => !(field(*v, key@) matches Some(Json::Array(_))),
        },
{
    match v.get(key) {
        Some(x) => match x {
            Json::Array(items) => Some(items),
            _ => None,
        },
        None => None,
    }
}

/// Relies on serde_json::from_str into a `Value`: the outcome depends on
/// the text alone (object keys come out sorted and unique).
#[verifier::external_body]
pub(crate) fn parse_json(text: &str) -> (r: Option<Json>)
    ensures
        r == parsed_json(text@),
{
    serde_json::from_str::<serde_json::Value>(text).ok().map(from_value)
}

/// Relies on serde_json::to_string_pretty, which cannot fail on a `Value`.
#[verifier::external_body]
pub(crate) fn pretty_json(v: &Json) -> (r: String)
    ensures
        r@ == pretty_text(*v),
{
    serde_json::to_string_pretty(&to_value(v)).unwrap_or_default()
}

/// Relies on the `Display` impl of serde_json's `Value` (compact text).
#[verifier::external_body]
pub(crate) fn compact_json(v: &Json) -> (r: String)
    ensures
        r@ == compact_text(*v),
{
    to_value(v).to_string()
}

/// Converts serde_json's `Value` into `Json`, variant by variant; used only
/// inside `parse_json`.
#[verifier::external_body]
fn from_value(v: serde_json::Value) -> Json {
    match v {
        serde_json::Value::Null => Json::Null,
        serde_json::Value::Bool(b) => Json::Bool(b),
        serde_json::Value::Number(n) => Json::Number(n.to_string()),
        serde_json::Value::String(s) => Json::Str(s),
        serde_json::Value::Array(a) => Json::Array(a.into_iter().map(from_value).collect()),
        serde_json::Value::Object(m) => Json::Object(
            m.into_iter().map(|(k, x)| (k, from_value(x))).collect(),
        ),
    }
}

/// Converts `Json` back into serde_json's `Value`, variant by variant; used
/// only inside the two printers.
#[verifier::external_body]
fn to_value(v: &Json) -> serde_json::Value {
    match v {
        Json::Null => serde_json::Value::Null,
        Json::Bool(b) => serde_json::Value::Bool(*b),
        Json::Number(n) => n.parse().map(serde_json::Value::Number).unwrap_or(serde_json::Value::Null),
        Json::Str(s) => serde_json::Value::String(s.clone()),
        Json::Array(a) => serde_json::Value::Array(a.iter().map(to_value).collect()),
        Json::Object(es) => serde_json::Value::Object(
            es.iter().map(|(k, x)| (k.clone(), to_value(x))).collect(),
        ),
    }
}

} // verus!
