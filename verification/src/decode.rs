//! Taking values out of JSON, with messages for values of the wrong kind.

use crate::encoding;
use crate::json::{self, Json};
use crate::text;
use vstd::prelude::*;

use crate::encoding::debug_text;
use crate::json::{number_is_float, number_text, number_u64, JsonView};

verus! {

/// What a message calls a value that is not what it should be.
pub open spec fn unexpected(v: JsonView) -> Seq<char> {
    match v {
        JsonView::Null => "null"@,
        JsonView::Bool(b) => if b {
            "boolean `true`"@
        } else {
            "boolean `false`"@
        },
        JsonView::Number(n) => if number_is_float(n) {
            "floating point `"@ + number_text(n) + "`"@
        } else {
            "integer `"@ + number_text(n) + "`"@
        },
        JsonView::Text(text) => "string "@ + debug_text(text),
        JsonView::Array(_) => "sequence"@,
        JsonView::Object(_) => "map"@,
    }
}

/// Message for a value of the wrong type.
pub open spec fn wrong_type(v: JsonView, expected: Seq<char>) -> Seq<char> {
    "invalid type: "@ + unexpected(v) + ", expected "@ + expected
}

/// Message for a value of the right type that is out of range.
pub open spec fn wrong_value(v: JsonView, expected: Seq<char>) -> Seq<char> {
    "invalid value: "@ + unexpected(v) + ", expected "@ + expected
}

/// The text that a member must be.
pub open spec fn decoded_text(v: JsonView) -> Result<Seq<char>, Seq<char>> {
    match v {
        JsonView::Text(text) => Ok(text),
        _ => Err(wrong_type(v, "a string"@)),
    }
}

/// The text that a member may be; an absent one or `null` is none.
pub open spec fn decoded_optional_text(v: Option<JsonView>) -> Result<
    Option<Seq<char>>,
    Seq<char>,
> {
    match v {
        None => Ok(None),
        Some(JsonView::Null) => Ok(None),
        Some(JsonView::Text(text)) => Ok(Some(text)),
        Some(v) => Err(wrong_type(v, "a string"@)),
    }
}

/// The item of an array at a place, where it reaches that far.
pub open spec fn item_at(items: Seq<JsonView>, i: int) -> Option<JsonView> {
    if i < items.len() {
        Some(items[i])
    } else {
        None
    }
}

/// Message for an array that is too long.
pub open spec fn too_long(n: nat) -> Seq<char> {
    "invalid length "@ + text::decimal(n) + ", expected fewer elements in array"@
}

/// What a decoder of the library returned, as contracts speak of it.
pub open spec fn decoding<T: DeepView>(r: Result<T, String>) -> Result<T::V, Seq<char>> {
    match r {
        Ok(value) => Ok(value.deep_view()),
        Err(reason) => Err(reason@),
    }
}

/// What a message calls a value that is not what it should be.
pub fn describe(json: &Json) -> (r: String)
    ensures
        r@ == unexpected(json.deep_view()),
{
    match json {
        Json::Null => text::owned("null"),
        Json::Bool(b) => if *b {
            text::owned("boolean `true`")
        } else {
            text::owned("boolean `false`")
        },
        Json::Number(n) => {
            let mut out = if n.is_f64() {
                text::owned("floating point `")
            } else {
                text::owned("integer `")
            };
            out.append(json::number_display(n).as_str());
            out.append("`");
            out
        },
        Json::Text(value) => {
            let mut out = text::owned("string ");
            out.append(encoding::quoted(value.as_str()).as_str());
            out
        },
        Json::Array(_) => text::owned("sequence"),
        Json::Object(_) => text::owned("map"),
    }
}

/// Message for a value of the wrong type.
pub fn wrong_type_message(json: &Json, expected: &str) -> (r: String)
    ensures
        r@ == wrong_type(json.deep_view(), expected@),
{
    let mut out = text::owned("invalid type: ");
    out.append(describe(json).as_str());
    out.append(", expected ");
    out.append(expected);
    out
}

/// Message for a value of the right type that is out of range.
pub fn wrong_value_message(json: &Json, expected: &str) -> (r: String)
    ensures
        r@ == wrong_value(json.deep_view(), expected@),
{
    let mut out = text::owned("invalid value: ");
    out.append(describe(json).as_str());
    out.append(", expected ");
    out.append(expected);
    out
}

/// The text that a value must be.
pub fn decode_text(json: &Json) -> (r: Result<String, String>)
    ensures
        decoding(r) == decoded_text(json.deep_view()),
{
    match json {
        Json::Text(text) => Ok(text.clone()),
        _ => Err(wrong_type_message(json, "a string")),
    }
}

/// The text that a member may be; an absent one or `null` is none.
pub fn decode_optional_text(json: Option<&Json>) -> (r: Result<Option<String>, String>)
    ensures
        decoding(r) == decoded_optional_text(json.deep_view()),
{
    match json {
        None => Ok(None),
        Some(Json::Null) => Ok(None),
        Some(Json::Text(text)) => Ok(Some(text.clone())),
        Some(json) => Err(wrong_type_message(json, "a string")),
    }
}

/// The item of an array at a place, where it reaches that far.
pub fn item<'a>(items: &'a Vec<Json>, i: usize) -> (r: Option<&'a Json>)
    ensures
        r.deep_view() == item_at(items.deep_view(), i as int),
{
    if i < items.len() {
        Some(&items[i])
    } else {
        None
    }
}

/// Message for an array that is too long.
pub fn too_long_message(n: usize) -> (r: String)
    ensures
        r@ == too_long(n as nat),
{
    let mut out = text::owned("invalid length ");
    out.append(text::decimal_text(n as u64).as_str());
    out.append(", expected fewer elements in array");
    out
}

/// The truth value that a member must be.
pub open spec fn decoded_bool(v: JsonView) -> Result<bool, Seq<char>> {
    match v {
        JsonView::Bool(b) => Ok(b),
        _ => Err(wrong_type(v, "a boolean"@)),
    }
}

/// The number that a member must be: an integer from zero that fits in 32
/// bits.
pub open spec fn decoded_u32(v: JsonView) -> Result<u32, Seq<char>> {
    match v {
        JsonView::Number(n) => match number_u64(n) {
            Some(value) => if value <= u32::MAX {
                Ok(value as u32)
            } else {
                Err(wrong_value(v, "u32"@))
            },
            None => if number_is_float(n) {
                Err(wrong_type(v, "u32"@))
            } else {
                Err(wrong_value(v, "u32"@))
            },
        },
        _ => Err(wrong_type(v, "u32"@)),
    }
}

/// The texts that the items of an array must be.
pub open spec fn decoded_texts(items: Seq<JsonView>) -> Result<Seq<Seq<char>>, Seq<char>>
    decreases items.len(),
{
    if items.len() == 0 {
        Ok(Seq::empty())
    } else {
        match decoded_texts(items.drop_last()) {
            Err(reason) => Err(reason),
            Ok(texts) => match decoded_text(items.last()) {
                Err(reason) => Err(reason),
                Ok(text) => Ok(texts.push(text)),
            },
        }
    }
}

/// The list of texts that a member must be.
pub open spec fn decoded_text_list(v: JsonView) -> Result<Seq<Seq<char>>, Seq<char>> {
    match v {
        JsonView::Array(items) => decoded_texts(items),
        _ => Err(wrong_type(v, "a sequence"@)),
    }
}

/// The truth value that a value must be.
pub fn decode_bool(json: &Json) -> (r: Result<bool, String>)
    ensures
        decoding(r) == decoded_bool(json.deep_view()),
{
    match json {
        Json::Bool(b) => Ok(*b),
        _ => Err(wrong_type_message(json, "a boolean")),
    }
}

/// The number that a value must be: an integer from zero that fits in 32 bits.
pub fn decode_u32(json: &Json) -> (r: Result<u32, String>)
    ensures
        decoding(r) == decoded_u32(json.deep_view()),
{
    match json {
        Json::Number(n) => match n.as_u64() {
            Some(value) => {
                if value <= 4294967295 {
                    Ok(value as u32)
                } else {
                    Err(wrong_value_message(json, "u32"))
                }
            },
            None => {
                if n.is_f64() {
                    Err(wrong_type_message(json, "u32"))
                } else {
                    Err(wrong_value_message(json, "u32"))
                }
            },
        },
        _ => Err(wrong_type_message(json, "u32")),
    }
}

/// The list of texts that a value must be.
pub fn decode_text_list(json: &Json) -> (r: Result<Vec<String>, String>)
    ensures
        decoding(r) == decoded_text_list(json.deep_view()),
{
    match json.as_array() {
        None => Err(wrong_type_message(json, "a sequence")),
        Some(items) => {
            let ghost all = items.deep_view();
            let mut texts: Vec<String> = Vec::new();
            let mut i: usize = 0;
            assert(texts.deep_view() =~= Seq::<Seq<char>>::empty());
            while i < items.len()
                invariant
                    i <= items@.len(),
                    all == items.deep_view(),
                    decoded_text_list(json.deep_view()) == decoded_texts(all),
                    decoded_texts(all.take(i as int)) == Ok::<Seq<Seq<char>>, Seq<char>>(
                        texts.deep_view(),
                    ),
                decreases items@.len() - i,
            {
                let ghost before = texts.deep_view();
                proof {
                    assert(all.take(i + 1).drop_last() == all.take(i as int));
                    assert(all.take(i + 1).last() == items@[i as int].deep_view());
                }
                match decode_text(&items[i]) {
                    Ok(text) => {
                        texts.push(text);
                        assert(texts.deep_view() =~= before.push(text@));
                    },
                    Err(reason) => {
                        proof {
                            first_wrong_text_stays(all, i + 1);
                        }
                        return Err(reason);
                    },
                }
                i += 1;
            }
            assert(all.take(i as int) == all);
            Ok(texts)
        },
    }
}

proof fn first_wrong_text_stays(items: Seq<JsonView>, n: int)
    requires
        0 <= n <= items.len(),
        decoded_texts(items.take(n)) is Err,
    ensures
        decoded_texts(items) == decoded_texts(items.take(n)),
    decreases items.len(),
{
    if n == items.len() {
        assert(items.take(n) == items);
    } else {
        assert(items.take(n) == items.drop_last().take(n));
        first_wrong_text_stays(items.drop_last(), n);
    }
}

} // verus!
