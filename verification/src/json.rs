//! JSON documents as the library reads them: the top-level value, and the
//! values directly inside it (nested arrays and objects by kind only).
use vstd::prelude::*;
use serde_json::Value;

verus! {

/// A JSON value found directly inside a document.
#[derive(Debug)]
pub enum JsonItem {
    Null,
    Bool(bool),
    /// A non-negative integer.
    PosInt(u64),
    /// A negative integer.
    NegInt(i64),
    /// A number that is not an integer of 64 bits.
    Float,
    Text(String),
    /// A nested array, contents not kept.
    Array,
    /// A nested object, contents not kept.
    Object,
}

/// The mathematical value of a [`JsonItem`].
pub enum JsonItemView {
    Null,
    Bool(bool),
    PosInt(u64),
    NegInt(i64),
    Float,
    Text(Seq<char>),
    Array,
    Object,
}

impl View for JsonItem {
    type V = JsonItemView;

    open spec fn view(&self) -> JsonItemView {
        match self {
            JsonItem::Null => JsonItemView::Null,
            JsonItem::Bool(b) => JsonItemView::Bool(*b),
            JsonItem::PosInt(n) => JsonItemView::PosInt(*n),
            JsonItem::NegInt(n) => JsonItemView::NegInt(*n),
            JsonItem::Float => JsonItemView::Float,
            JsonItem::Text(s) => JsonItemView::Text(s@),
            JsonItem::Array => JsonItemView::Array,
            JsonItem::Object => JsonItemView::Object,
        }
    }
}

/// A whole JSON document.
#[derive(Debug)]
pub enum JsonDoc {
    /// An object: its members in order.
    Object(Vec<(String, JsonItem)>),
    /// An array: its elements in order.
    Array(Vec<JsonItem>),
    /// Any other value.
    Scalar(JsonItem),
}

/// The mathematical value of a [`JsonDoc`].
pub enum JsonDocView {
    Object(Seq<(Seq<char>, JsonItemView)>),
    Array(Seq<JsonItemView>),
    Scalar(JsonItemView),
}

/// The views of object members.
pub open spec fn member_views(m: Seq<(String, JsonItem)>) -> Seq<(Seq<char>, JsonItemView)> {
    m.map_values(|p: (String, JsonItem)| (p.0@, p.1@))
}

/// The views of array elements.
pub open spec fn item_views(v: Seq<JsonItem>) -> Seq<JsonItemView> {
    v.map_values(|x: JsonItem| x@)
}

impl View for JsonDoc {
    type V = JsonDocView;

    open spec fn view(&self) -> JsonDocView {
        match self {
            JsonDoc::Object(m) => JsonDocView::Object(member_views(m@)),
            JsonDoc::Array(v) => JsonDocView::Array(item_views(v@)),
            JsonDoc::Scalar(x) => JsonDocView::Scalar(x@),
        }
    }
}

/// The value of the first member named `key`.
pub open spec fn member(m: Seq<(Seq<char>, JsonItemView)>, key: Seq<char>) -> Option<JsonItemView>
    decreases m.len(),
{
    if m.len() == 0 {
        None
    } else if m[0].0 == key {
        Some(m[0].1)
    } else {
        member(m.drop_first(), key)
    }
}

/// `doc[key]` for an object, nothing for any other document.
pub open spec fn doc_member(doc: JsonDocView, key: Seq<char>) -> Option<JsonItemView> {
    match doc {
        JsonDocView::Object(m) => member(m, key),
        _ => None,
    }
}

/// The text of a string item.
pub open spec fn item_text(x: Option<JsonItemView>) -> Option<Seq<char>> {
    match x {
        Some(JsonItemView::Text(s)) => Some(s),
        _ => None,
    }
}

/// The value of a non-negative integer item.
pub open spec fn item_u64(x: Option<JsonItemView>) -> Option<u64> {
    match x {
        Some(JsonItemView::PosInt(n)) => Some(n),
        _ => None,
    }
}

/// The name given to what `serde_json::from_slice::<Value>` makes of
/// `bytes`, read as a [`JsonDocView`]; `None` where it reports an error.
pub uninterp spec fn json_document(bytes: Seq<u8>) -> Option<JsonDocView>;

#[verifier::external_type_specification]
#[verifier::external_body]
pub struct ExJsonError(serde_json::Error);

#[verifier::external_type_specification]
#[verifier::external_body]
pub struct ExJsonValue(Value);

/// One nested value, kept by kind; numbers by `as_u64`, then `as_i64`.
#[verifier::external_body]
fn item_of_value(v: Value) -> JsonItem {
    match v {
        Value::Null => JsonItem::Null,
        Value::Bool(b) => JsonItem::Bool(b),
        Value::Number(n) => match (n.as_u64(), n.as_i64()) {
            (Some(u), _) => JsonItem::PosInt(u),
            (None, Some(i)) => JsonItem::NegInt(i),
            _ => JsonItem::Float,
        },
        Value::String(s) => JsonItem::Text(s),
        Value::Array(_) => JsonItem::Array,
        Value::Object(_) => JsonItem::Object,
    }
}

/// A parsed `Value` moved, variant by variant, into a [`JsonDoc`].
#[verifier::external_body]
fn doc_of_value(v: Value) -> JsonDoc {
    match v {
        Value::Object(m) => JsonDoc::Object(m.into_iter().map(|(k, x)| (k, item_of_value(x))).collect()),
        Value::Array(a) => JsonDoc::Array(a.into_iter().map(item_of_value).collect()),
        other => JsonDoc::Scalar(item_of_value(other)),
    }
}

/// `serde_json::from_slice::<Value>`. Claimed: the outcome is a function of
/// the bytes alone, named [`json_document`]; neither the JSON grammar nor
/// serde_json's choices are restated. Of an object, `serde_json::Map` keeps
/// one member per key, so a repeated key reaches the library once.
#[verifier::external_body]
pub(crate) fn parse_json(bytes: &[u8]) -> (r: Result<JsonDoc, serde_json::Error>)
    ensures
        match r {
            Ok(d) => json_document(bytes@) == Some(d@),
            Err(_) => json_document(bytes@) is None,
        },
{
    serde_json::from_slice::<Value>(bytes).map(doc_of_value)
}

/// Parse JSON text into a [`JsonDoc`]; `None` when it is not JSON.
pub fn json_doc_from_slice(bytes: &[u8]) -> (r: Option<JsonDoc>)
    ensures
        match r {
            Some(d) => json_document(bytes@) == Some(d@),
            None => json_document(bytes@) is None,
        },
{
    match parse_json(bytes) {
        Ok(d) => Some(d),
        Err(_) => None,
    }
}

impl JsonDoc {
    /// `doc[key]`: the member named `key` of an object.
    pub fn get(&self, key: &str) -> (r: Option<&JsonItem>)
        ensures
            match r {
                Some(x) => doc_member(self@, key@) == Some(x@),
                None => doc_member(self@, key@) is None,
            },
    {
        match self {
            JsonDoc::Object(m) => {
                let mut i: usize = 0;
                assert(member_views(m@).skip(0) == member_views(m@));
                while i < m.len()
                    invariant
                        i <= m.len(),
                        self@ == JsonDocView::Object(member_views(m@)),
                        member(member_views(m@), key@) == member(member_views(m@).skip(i as int), key@),
                    decreases m.len() - i,
                {
                    let ghost rest = member_views(m@).skip(i as int);
                    assert(rest.drop_first() == member_views(m@).skip(i + 1));
                    assert(rest[0] == (m@[i as int].0@, m@[i as int].1@));
                    if crate::text::same_text(m[i].0.as_str(), key) {
                        return Some(&m[i].1);
                    }
                    i = i + 1;
                }
                None
            },
            _ => None,
        }
    }

    /// `doc[key].as_str()`.
    pub fn get_str(&self, key: &str) -> (r: Option<&str>)
        ensures
            match r {
                Some(s) => item_text(doc_member(self@, key@)) == Some(s@),
                None => item_text(doc_member(self@, key@)) is None,
            },
    {
        match self.get(key) {
            Some(JsonItem::Text(s)) => Some(s.as_str()),
            _ => None,
        }
    }

    /// `doc[key].as_u64()`.
    pub fn get_u64(&self, key: &str) -> (r: Option<u64>)
        ensures
            r == item_u64(doc_member(self@, key@)),
    {
        match self.get(key) {
            Some(JsonItem::PosInt(n)) => Some(*n),
            _ => None,
        }
    }
}

} // verus!
