//! Access to the members of a JSON object held in a text frame.

use vstd::prelude::*;

verus! {

/// What one member of a JSON object holds, as far as this library reads it.
pub enum JsonField {
    /// The text is not a JSON object.
    NotObject,
    /// The object has no member of that name.
    Missing,
    Null,
    /// A number that fits in an `i64`.
    Int(i64),
    Text(String),
    /// Any other value: another number, a boolean, an array or an object.
    Other,
}

/// The mathematical view of a `JsonField`.
pub ghost enum FieldView {
    NotObject,
    Missing,
    Null,
    Int(int),
    Text(Seq<char>),
    Other,
}

impl View for JsonField {
    type V = FieldView;

    open spec fn view(&self) -> FieldView {
        match self {
            JsonField::NotObject => FieldView::NotObject,
            JsonField::Missing => FieldView::Missing,
            JsonField::Null => FieldView::Null,
            JsonField::Int(n) => FieldView::Int(*n as int),
            JsonField::Text(s) => FieldView::Text(s@),
            JsonField::Other => FieldView::Other,
        }
    }
}

/// The member named `key` of the JSON object written in `text`, as serde_json
/// reads it.
pub uninterp spec fn json_member_of(text: Seq<char>, key: Seq<char>) -> FieldView;

/// JSON string literal for `s`, quotes and escapes included, as serde_json
/// writes it.
pub uninterp spec fn json_quoted_of(s: Seq<char>) -> Seq<char>;

/// Relies on `serde_json::from_str` into a `serde_json::Map` and on
/// `Map::get` / `Number::as_i64`: reads the member named `key`.
#[verifier::external_body]
pub(crate) fn json_member(text: &str, key: &str) -> (r: JsonField)
    ensures
        r@ == json_member_of(text@, key@),
{
    match serde_json::from_str::<serde_json::Map<String, serde_json::Value>>(text) {
        Err(_) => JsonField::NotObject,
        Ok(m) => match m.get(key) {
            None => JsonField::Missing,
            Some(serde_json::Value::Null) => JsonField::Null,
            Some(serde_json::Value::Number(n)) => n.as_i64().map_or(JsonField::Other, JsonField::Int),
            Some(serde_json::Value::String(s)) => JsonField::Text(s.clone()),
            Some(_) => JsonField::Other,
        },
    }
}

/// Relies on `serde_json::to_string` of a `&str`, which cannot fail: the
/// string literal that encodes `s`.
#[verifier::external_body]
pub(crate) fn json_quoted(s: &str) -> (r: String)
    ensures
        r@ == json_quoted_of(s@),
{
    serde_json::to_string(s).unwrap_or_default()
}

} // verus!
