//! JSON values as the library reads and writes them.

use crate::text;
use vstd::prelude::*;

verus! {

/// What a JSON value holds. Two objects with the same members are the same
/// value, whatever order the members were written in.
pub enum JsonView {
    Null,
    Bool(bool),
    Number(serde_json::Number),
    Text(Seq<char>),
    Array(Seq<JsonView>),
    Object(Map<Seq<char>, JsonView>),
}

/// A JSON value. Where two members of an object have the same name, the later
/// one counts.
#[derive(Debug)]
pub enum Json {
    Null,
    Bool(bool),
    Number(serde_json::Number),
    Text(String),
    Array(Vec<Json>),
    Object(Vec<(String, Json)>),
}

/// A JSON number, opaque.
#[verifier::external_type_specification]
#[verifier::external_body]
pub struct ExNumber(serde_json::Number);

/// A parsed JSON document of `serde_json`, opaque.
#[verifier::external_type_specification]
#[verifier::external_body]
pub struct ExValue(serde_json::Value);

/// The members of an object by name, the later of two with one name.
pub open spec fn members_view(members: Seq<(String, Json)>) -> Map<Seq<char>, JsonView>
    decreases members,
{
    if members.len() == 0 {
        Map::empty()
    } else {
        members_view(members.drop_last()).insert(
            members.last().0@,
            json_view(members.last().1),
        )
    }
}

/// What a JSON value holds.
pub open spec fn json_view(value: Json) -> JsonView
    decreases value,
{
    match value {
        Json::Null => JsonView::Null,
        Json::Bool(b) => JsonView::Bool(b),
        Json::Number(n) => JsonView::Number(n),
        Json::Text(text) => JsonView::Text(text@),
        Json::Array(items) => JsonView::Array(items_view(items@)),
        Json::Object(members) => JsonView::Object(members_view(members@)),
    }
}

/// What the items of an array hold.
pub open spec fn items_view(items: Seq<Json>) -> Seq<JsonView>
    decreases items,
{
    if items.len() == 0 {
        Seq::empty()
    } else {
        items_view(items.drop_last()).push(json_view(items.last()))
    }
}

impl DeepView for Json {
    type V = JsonView;

    open spec fn deep_view(&self) -> JsonView {
        json_view(*self)
    }
}

// ---------------------------------------------------------------------------
// Shape of a value
// ---------------------------------------------------------------------------

/// Arrays and objects nest at most `depth` deep in `v`, and every number in it
/// satisfies `p`.
pub open spec fn numbers_satisfy(
    v: JsonView,
    depth: nat,
    p: spec_fn(serde_json::Number) -> bool,
) -> bool
    decreases depth,
{
    match v {
        JsonView::Number(n) => p(n),
        JsonView::Array(items) => depth > 0 && forall|i: int|
            0 <= i < items.len() ==> numbers_satisfy(#[trigger] items[i], (depth - 1) as nat, p),
        JsonView::Object(members) => depth > 0 && forall|k: Seq<char>|
            members.contains_key(k) ==> numbers_satisfy(
                #[trigger] members[k],
                (depth - 1) as nat,
                p,
            ),
        _ => true,
    }
}

/// Deepest nesting that the parser reads.
pub open spec fn depth_limit() -> nat {
    127
}

/// Arrays and objects nest at most `depth` deep in `v`.
pub open spec fn nested_at_most(v: JsonView, depth: nat) -> bool {
    numbers_satisfy(v, depth, |n: serde_json::Number| true)
}

/// `v` holds no number, and arrays and objects nest at most `depth` deep in it.
pub open spec fn number_free(v: JsonView, depth: nat) -> bool {
    numbers_satisfy(v, depth, |n: serde_json::Number| false)
}

/// `v` holds no number with a fraction, only integers, and arrays and objects
/// nest at most `depth` deep in it.
pub open spec fn fraction_free(v: JsonView, depth: nat) -> bool {
    numbers_satisfy(v, depth, |n: serde_json::Number| !number_is_float(n))
}

/// A value whose numbers satisfy `p` within `depth` does so within any greater
/// depth and for any weaker condition.
pub proof fn numbers_satisfy_weaker(
    v: JsonView,
    depth: nat,
    p: spec_fn(serde_json::Number) -> bool,
    wider: nat,
    q: spec_fn(serde_json::Number) -> bool,
)
    requires
        numbers_satisfy(v, depth, p),
        depth <= wider,
        forall|n: serde_json::Number| #[trigger] p(n) ==> q(n),
    ensures
        numbers_satisfy(v, wider, q),
    decreases depth,
{
    match v {
        JsonView::Array(items) => {
            assert forall|i: int| 0 <= i < items.len() implies numbers_satisfy(
                #[trigger] items[i],
                (wider - 1) as nat,
                q,
            ) by {
                numbers_satisfy_weaker(items[i], (depth - 1) as nat, p, (wider - 1) as nat, q);
            }
        },
        JsonView::Object(members) => {
            assert forall|k: Seq<char>| members.contains_key(k) implies numbers_satisfy(
                #[trigger] members[k],
                (wider - 1) as nat,
                q,
            ) by {
                numbers_satisfy_weaker(members[k], (depth - 1) as nat, p, (wider - 1) as nat, q);
            }
        },
        _ => {},
    }
}

// ---------------------------------------------------------------------------
// serde_json
// ---------------------------------------------------------------------------

/// The value of a number that is an unsigned 64-bit integer.
pub uninterp spec fn number_u64(n: serde_json::Number) -> Option<u64>;

/// `serde_json::Number::as_u64` gives the value of a number that was written
/// as an integer between zero and `u64::MAX`.
pub assume_specification[ serde_json::Number::as_u64 ](n: &serde_json::Number) -> (r: Option<u64>)
    ensures
        r == number_u64(*n),
;

/// Was the number written with a fraction or an exponent, or is it too large for
/// an integer?
pub uninterp spec fn number_is_float(n: serde_json::Number) -> bool;

/// `serde_json::Number::is_f64` tells the numbers that are kept as floating
/// point from the integers.
pub assume_specification[ serde_json::Number::is_f64 ](n: &serde_json::Number) -> (r: bool)
    ensures
        r == number_is_float(*n),
;

/// A number as it is written in a document.
pub uninterp spec fn number_text(n: serde_json::Number) -> Seq<char>;

/// A number as it is written in a document.
///
/// Calls the `Display` of `serde_json::Number`, which prints an integer in
/// decimal and a fraction in its shortest form.
#[verifier::external_body]
pub(crate) fn number_display(n: &serde_json::Number) -> (r: String)
    ensures
        r@ == number_text(*n),
{
    n.to_string()
}

/// What a document of `serde_json` holds.
pub uninterp spec fn value_content(value: serde_json::Value) -> JsonView;

/// What parsing `text` gives: the value that it stands for, or the message that
/// says why it stands for none.
pub uninterp spec fn json_parse(text: Seq<char>) -> Result<JsonView, Seq<char>>;

/// The indented JSON text of a value.
pub uninterp spec fn json_pretty(v: JsonView) -> Seq<char>;

/// Parses a JSON text.
///
/// Calls `serde_json::from_str` and turns its error into its message. Which
/// text stands for which value is only named; arrays and objects that nest
/// more than 127 deep are refused.
#[verifier::external_body]
pub(crate) fn read_value(text: &str) -> (r: Result<serde_json::Value, String>)
    ensures
        match r {
            Ok(value) => json_parse(text@) == Ok::<JsonView, Seq<char>>(value_content(value))
                && nested_at_most(value_content(value), depth_limit()),
            Err(message) => json_parse(text@) == Err::<JsonView, Seq<char>>(message@),
        },
{
    serde_json::from_str::<serde_json::Value>(text).map_err(|e| e.to_string())
}

/// A parsed document as a value of the library.
///
/// Takes a `serde_json::Value` apart, variant by variant.
#[verifier::external_body]
pub(crate) fn json_of_value(value: serde_json::Value) -> (r: Json)
    ensures
        r.deep_view() == value_content(value),
{
    match value {
        serde_json::Value::Null => Json::Null,
        serde_json::Value::Bool(b) => Json::Bool(b),
        serde_json::Value::Number(n) => Json::Number(n),
        serde_json::Value::String(text) => Json::Text(text),
        serde_json::Value::Array(items) => Json::Array(
            items.into_iter().map(json_of_value).collect(),
        ),
        serde_json::Value::Object(members) => Json::Object(
            members.into_iter().map(|member| (member.0, json_of_value(member.1))).collect(),
        ),
    }
}

/// A value of the library as a document of `serde_json`.
///
/// Builds a `serde_json::Value`, variant by variant; a later member of an
/// object replaces an earlier one of the same name, as
/// `serde_json::Map::insert` does.
#[verifier::external_body]
pub(crate) fn value_of_json(json: &Json) -> (r: serde_json::Value)
    ensures
        value_content(r) == json.deep_view(),
{
    match json {
        Json::Null => serde_json::Value::Null,
        Json::Bool(b) => serde_json::Value::Bool(*b),
        Json::Number(n) => serde_json::Value::Number(n.clone()),
        Json::Text(text) => serde_json::Value::String(text.clone()),
        Json::Array(items) => serde_json::Value::Array(items.iter().map(value_of_json).collect()),
        Json::Object(members) => {
            let mut out = serde_json::Map::new();
            for member in members {
                out.insert(member.0.clone(), value_of_json(&member.1));
            }
            serde_json::Value::Object(out)
        },
    }
}

/// Indented JSON text of a document.
///
/// Calls `serde_json::to_string_pretty`, which does not fail on a
/// `serde_json::Value`. The text of an object starts with a brace. A text
/// can be parsed again if it does not nest too deep: a number is finite, its
/// text has at most 17 digits, and reading that never leaves the range. What
/// comes back is the same value where all its numbers are integers, and in an
/// object every member of that form comes back as it was. Numbers with a
/// fraction may come back changed in their last digit, so nothing is said of
/// their value.
#[verifier::external_body]
pub(crate) fn write_value(value: &serde_json::Value) -> (r: Result<String, String>)
    ensures
        match r {
            Ok(written) => written@ == json_pretty(value_content(*value)) && reads_back(
                value_content(*value),
                written@,
            ),
            Err(_) => false,
        },
{
    serde_json::to_string_pretty(value).map_err(|e| e.to_string())
}

/// What is known of reading `written`, the indented JSON text of `v`, again.
pub open spec fn reads_back(v: JsonView, written: Seq<char>) -> bool {
    let again = json_parse(written);
    &&& v is Object ==> written.len() > 0 && written[0] == '{'
    &&& nested_at_most(v, depth_limit()) ==> again is Ok
    &&& fraction_free(v, depth_limit()) ==> again == Ok::<JsonView, Seq<char>>(v)
    &&& v is Object && again is Ok ==> same_but_fractions(v, again->Ok_0)
}

/// `a` and `b` are objects with the same names, and the members of `a` that
/// hold no fraction are the same in `b`.
pub open spec fn same_but_fractions(a: JsonView, b: JsonView) -> bool {
    &&& a is Object
    &&& b is Object
    &&& a->Object_0.dom() == b->Object_0.dom()
    &&& forall|k: Seq<char>| #[trigger]
        a->Object_0.contains_key(k) && fraction_free(a->Object_0[k], depth_limit())
            ==> b->Object_0[k] == a->Object_0[k]
}

// ---------------------------------------------------------------------------
// Reading, writing, looking up
// ---------------------------------------------------------------------------

/// Parses a JSON text.
pub fn parse(text: &str) -> (r: Result<Json, String>)
    ensures
        match r {
            Ok(json) => json_parse(text@) == Ok::<JsonView, Seq<char>>(json.deep_view())
                && nested_at_most(json.deep_view(), depth_limit()),
            Err(message) => json_parse(text@) == Err::<JsonView, Seq<char>>(message@),
        },
{
    match read_value(text) {
        Ok(value) => Ok(json_of_value(value)),
        Err(message) => Err(message),
    }
}

/// Indented JSON text of a value.
pub fn pretty(json: &Json) -> (r: Result<String, String>)
    ensures
        match r {
            Ok(written) => written@ == json_pretty(json.deep_view()) && reads_back(
                json.deep_view(),
                written@,
            ),
            Err(_) => false,
        },
{
    let value = value_of_json(json);
    write_value(&value)
}

/// The member called `key`, where `v` is an object that has one.
pub open spec fn member(v: JsonView, key: Seq<char>) -> Option<JsonView> {
    match v {
        JsonView::Object(members) => if members.contains_key(key) {
            Some(members[key])
        } else {
            None
        },
        _ => None,
    }
}

impl Json {
    /// The member called `key`, if this is an object that has one.
    pub fn get(&self, key: &str) -> (r: Option<&Json>)
        ensures
            r.deep_view() == member(self.deep_view(), key@),
    {
        match self {
            Json::Object(members) => {
                let mut found: Option<usize> = None;
                let mut i: usize = 0;
                while i < members.len()
                    invariant
                        i <= members@.len(),
                        match found {
                            Some(at) => at < i && members_view(
                                members@.take(i as int),
                            ).contains_key(key@) && members_view(members@.take(i as int))[key@]
                                == members@[at as int].1.deep_view(),
                            None => !members_view(members@.take(i as int)).contains_key(key@),
                        },
                    decreases members@.len() - i,
                {
                    proof {
                        let next = members@.take(i + 1);
                        assert(next.drop_last() == members@.take(i as int));
                        assert(next.last() == members@[i as int]);
                    }
                    if text::same(members[i].0.as_str(), key) {
                        found = Some(i);
                    }
                    i += 1;
                }
                assert(members@.take(members@.len() as int) == members@);
                match found {
                    Some(at) => Some(&members[at].1),
                    None => None,
                }
            },
            _ => None,
        }
    }

    /// The text, if this is one.
    pub fn as_text(&self) -> (r: Option<&str>)
        ensures
            r.deep_view() == (match self.deep_view() {
                JsonView::Text(text) => Some(text),
                _ => None,
            }),
    {
        match self {
            Json::Text(text) => Some(text.as_str()),
            _ => None,
        }
    }

    /// The truth value, if this is one.
    pub fn as_bool(&self) -> (r: Option<bool>)
        ensures
            r == (match self.deep_view() {
                JsonView::Bool(b) => Some(b),
                _ => None,
            }),
    {
        match self {
            Json::Bool(b) => Some(*b),
            _ => None,
        }
    }

    /// The items, if this is an array.
    pub fn as_array(&self) -> (r: Option<&Vec<Json>>)
        ensures
            r.deep_view() == (match self.deep_view() {
                JsonView::Array(items) => Some(items),
                _ => None,
            }),
    {
        match self {
            Json::Array(items) => {
                proof {
                    items_view_by_index(items@);
                    assert(items.deep_view() =~= items_view(items@));
                }
                Some(items)
            },
            _ => None,
        }
    }
}

/// Each item of an array holds what the item at its place holds.
pub proof fn items_view_by_index(items: Seq<Json>)
    ensures
        items_view(items).len() == items.len(),
        forall|i: int|
            0 <= i < items.len() ==> #[trigger] items_view(items)[i] == items[i].deep_view(),
    decreases items.len(),
{
    if items.len() > 0 {
        items_view_by_index(items.drop_last());
        assert forall|i: int| 0 <= i < items.len() implies #[trigger] items_view(items)[i]
            == items[i].deep_view() by {
            if i < items.len() - 1 {
                assert(items_view(items.drop_last())[i] == items.drop_last()[i].deep_view());
            }
        }
    }
}

} // verus!
