//! JSON values as the document model carries them, and the bridge to
//! `serde_json`, which does the parsing and the printing.

use vstd::prelude::*;

verus! {

/// `serde_json::Number`, carried through unopened.
#[verifier::external_type_specification]
#[verifier::external_body]
pub struct ExJsonNumber(serde_json::Number);

/// `serde_json::Value`, seen only where a text is parsed or printed.
#[verifier::external_type_specification]
#[verifier::external_body]
pub struct ExJsonTree(serde_json::Value);

/// `Clone` for `serde_json::Number` is derived there: the copy is the same
/// number.
pub assume_specification[ <serde_json::Number as Clone>::clone ](n: &serde_json::Number) -> (r:
    serde_json::Number)
    ensures
        r == *n,
;

/// A JSON value.  Object members are kept in document order.
#[derive(Debug, PartialEq)]
pub enum JsonValue {
    Null,
    Bool(bool),
    Number(serde_json::Number),
    String(String),
    Array(Vec<JsonValue>),
    Object(Vec<(String, JsonValue)>),
}

/// The mathematical content of a [`JsonValue`].
pub enum JsonView {
    Null,
    Bool(bool),
    Number(serde_json::Number),
    String(Seq<char>),
    Array(Seq<JsonView>),
    Object(Seq<(Seq<char>, JsonView)>),
}

/// The content of a list of JSON values.
pub open spec fn items_view(items: Seq<JsonValue>) -> Seq<JsonView> {
    Seq::new(items.len(), |i: int| items[i]@)
}

/// The content of a list of object members.
pub open spec fn members_view(members: Seq<(String, JsonValue)>) -> Seq<(Seq<char>, JsonView)> {
    Seq::new(members.len(), |i: int| (members[i].0@, members[i].1@))
}

/// The content of a value, by recursion on its structure.
pub open spec fn content(value: JsonValue) -> JsonView
    decreases value,
{
    match value {
        JsonValue::Null => JsonView::Null,
        JsonValue::Bool(b) => JsonView::Bool(b),
        JsonValue::Number(n) => JsonView::Number(n),
        JsonValue::String(s) => JsonView::String(s@),
        JsonValue::Array(items) => JsonView::Array(
            Seq::new(
                items.len() as nat,
                |i: int|
                    if 0 <= i < items.len() {
                        content(items[i])
                    } else {
                        JsonView::Null
                    },
            ),
        ),
        JsonValue::Object(members) => JsonView::Object(
            Seq::new(
                members.len() as nat,
                |i: int|
                    if 0 <= i < members.len() {
                        (members[i].0@, content(members[i].1))
                    } else {
                        (Seq::empty(), JsonView::Null)
                    },
            ),
        ),
    }
}

impl View for JsonValue {
    type V = JsonView;

    open spec fn view(&self) -> JsonView {
        content(*self)
    }
}

/// An array's content is the content of its items, in order.
pub proof fn lemma_array_view(items: Vec<JsonValue>)
    ensures
        JsonValue::Array(items)@ == JsonView::Array(items_view(items@)),
{
    assert(JsonValue::Array(items)@->Array_0 =~= items_view(items@));
}

/// An object's content is the content of its members, in order.
pub proof fn lemma_object_view(members: Vec<(String, JsonValue)>)
    ensures
        JsonValue::Object(members)@ == JsonView::Object(members_view(members@)),
{
    assert(JsonValue::Object(members)@->Object_0 =~= members_view(members@));
}

impl Clone for JsonValue {
    fn clone(&self) -> (r: Self)
        ensures
            r@ == self@,
        decreases self,
    {
        match self {
            JsonValue::Null => JsonValue::Null,
            JsonValue::Bool(b) => JsonValue::Bool(*b),
            JsonValue::Number(n) => JsonValue::Number(n.clone()),
            JsonValue::String(s) => JsonValue::String(s.clone()),
            JsonValue::Array(items) => {
                let mut copy: Vec<JsonValue> = Vec::new();
                let mut i: usize = 0;
                while i < items.len()
                    invariant
                        *self == JsonValue::Array(*items),
                        i <= items.len(),
                        copy.len() == i,
                        forall|j: int| 0 <= j < i ==> copy[j]@ == items[j]@,
                    decreases items.len() - i,
                {
                    assert(decreases_to!(*self => self->Array_0));
                    copy.push(items[i].clone());
                    i += 1;
                }
                proof {
                    lemma_array_view(*items);
                    lemma_array_view(copy);
                    assert(items_view(copy@) =~= items_view(items@));
                }
                JsonValue::Array(copy)
            },
            JsonValue::Object(members) => {
                let mut copy: Vec<(String, JsonValue)> = Vec::new();
                let mut i: usize = 0;
                while i < members.len()
                    invariant
                        *self == JsonValue::Object(*members),
                        i <= members.len(),
                        copy.len() == i,
                        forall|j: int|
                            0 <= j < i ==> copy[j].0@ == members[j].0@ && copy[j].1@
                                == members[j].1@,
                    decreases members.len() - i,
                {
                    assert(decreases_to!(*self => self->Object_0));
                    copy.push((members[i].0.clone(), members[i].1.clone()));
                    i += 1;
                }
                proof {
                    lemma_object_view(*members);
                    lemma_object_view(copy);
                    assert(members_view(copy@) =~= members_view(members@));
                }
                JsonValue::Object(copy)
            },
        }
    }
}

/// The number that `serde_json` makes of an unsigned integer.
pub uninterp spec fn number_of(value: u64) -> serde_json::Number;

/// The unsigned integer that `serde_json` reads out of a JSON number, if it
/// reads one.
pub uninterp spec fn json_u64(value: JsonView) -> Option<u64>;

/// The signed integer that `serde_json` reads out of a JSON number, if it
/// reads one.
pub uninterp spec fn json_i64(value: JsonView) -> Option<i64>;

/// The signed integer that is read out of the number of an unsigned one:
/// the same integer, where it is small enough.
pub open spec fn signed(value: u64) -> Option<i64> {
    if value <= i64::MAX {
        Some(value as i64)
    } else {
        None
    }
}

/// `serde_json::Number::from` for a `u64`: the number is a function of the
/// integer, `as_u64` reads the integer back, and `as_i64` reads it back
/// where it is no greater than `i64::MAX`.
#[verifier::external_body]
fn number_from(value: u64) -> (r: serde_json::Number)
    ensures
        r == number_of(value),
        json_u64(JsonView::Number(r)) == Some(value),
        json_i64(JsonView::Number(r)) == signed(value),
{
    serde_json::Number::from(value)
}

/// The number that `serde_json` makes of a signed integer.
pub uninterp spec fn number_of_signed(value: i64) -> serde_json::Number;

/// `serde_json::Number::from` for an `i64`: the number is a function of
/// the integer, `as_i64` reads the integer back, and the number of an
/// integer that is not negative is the number of the same unsigned one.
#[verifier::external_body]
fn number_from_signed(value: i64) -> (r: serde_json::Number)
    ensures
        r == number_of_signed(value),
        json_i64(JsonView::Number(r)) == Some(value),
        value >= 0 ==> r == number_of(value as u64),
{
    serde_json::Number::from(value)
}

/// `serde_json::Number::as_u64`: the number as an unsigned integer, where
/// it is one.
#[verifier::external_body]
fn number_u64(number: &serde_json::Number) -> (r: Option<u64>)
    ensures
        r == json_u64(JsonView::Number(*number)),
{
    number.as_u64()
}

/// `serde_json::Number::as_i64`: the number as a signed integer, where it
/// is one that fits.
#[verifier::external_body]
fn number_i64(number: &serde_json::Number) -> (r: Option<i64>)
    ensures
        r == json_i64(JsonView::Number(*number)),
{
    number.as_i64()
}

impl JsonView {
    /// The unsigned integer of a value that is a number and such an
    /// integer.
    pub open spec fn as_u64(self) -> Option<u64> {
        if self is Number {
            json_u64(self)
        } else {
            None
        }
    }

    /// The signed integer of a value that is a number and such an integer.
    pub open spec fn as_i64(self) -> Option<i64> {
        if self is Number {
            json_i64(self)
        } else {
            None
        }
    }
}

impl JsonValue {
    /// The unsigned integer, where the value is a number and such an
    /// integer.
    pub fn as_u64(&self) -> (r: Option<u64>)
        ensures
            r == self@.as_u64(),
    {
        match self {
            JsonValue::Number(number) => number_u64(number),
            _ => None,
        }
    }

    /// The signed integer, where the value is a number and such an
    /// integer.
    pub fn as_i64(&self) -> (r: Option<i64>)
        ensures
            r == self@.as_i64(),
    {
        match self {
            JsonValue::Number(number) => number_i64(number),
            _ => None,
        }
    }

    /// The JSON number of an unsigned integer.
    pub fn unsigned(value: u64) -> (r: JsonValue)
        ensures
            r@ == JsonView::Number(number_of(value)),
            r@.as_u64() == Some(value),
            r@.as_i64() == signed(value),
    {
        JsonValue::Number(number_from(value))
    }

    /// The JSON number of a signed integer.
    pub fn signed(value: i64) -> (r: JsonValue)
        ensures
            r@ == JsonView::Number(number_of_signed(value)),
            r@.as_i64() == Some(value),
            value >= 0 ==> r@ == JsonView::Number(number_of(value as u64)),
    {
        JsonValue::Number(number_from_signed(value))
    }

    /// The JSON string of a text.
    pub fn text(value: &str) -> (r: JsonValue)
        ensures
            r@ == JsonView::String(value@),
    {
        JsonValue::String(value.to_owned())
    }

    /// The text, where the value is a string.
    pub fn as_str(&self) -> (r: Option<&str>)
        ensures
            match r {
                Some(text) => self@ == JsonView::String(text@),
                None => !(self@ is String),
            },
    {
        match self {
            JsonValue::String(text) => Some(text.as_str()),
            _ => None,
        }
    }

    /// The truth value, where the value is one.
    pub fn as_bool(&self) -> (r: Option<bool>)
        ensures
            match r {
                Some(b) => self@ == JsonView::Bool(b),
                None => !(self@ is Bool),
            },
    {
        match self {
            JsonValue::Bool(b) => Some(*b),
            _ => None,
        }
    }
}

/// What `serde_json` makes of a text: the value it reads, or the message of
/// the error it reports.
pub uninterp spec fn json_parse(text: Seq<char>) -> Result<JsonView, Seq<char>>;

/// The compact text `serde_json` prints for a value.
pub uninterp spec fn json_text(value: JsonView) -> Seq<char>;

/// The indented text `serde_json` prints for a value.
pub uninterp spec fn json_text_pretty(value: JsonView) -> Seq<char>;

/// The content of what a parse gave: the value's content, or the message.
pub open spec fn outcome_view(r: Result<JsonValue, String>) -> Result<JsonView, Seq<char>> {
    match r {
        Ok(v) => Ok(v@),
        Err(m) => Err(m@),
    }
}

/// Rebuilds a `serde_json::Value` as a [`JsonValue`], variant by variant.
/// Members come in the order in which `serde_json::Map` hands them out.
#[verifier::external_body]
fn from_serde(value: serde_json::Value) -> JsonValue {
    match value {
        serde_json::Value::Null => JsonValue::Null,
        serde_json::Value::Bool(b) => JsonValue::Bool(b),
        serde_json::Value::Number(n) => JsonValue::Number(n),
        serde_json::Value::String(s) => JsonValue::String(s),
        serde_json::Value::Array(a) => JsonValue::Array(a.into_iter().map(from_serde).collect()),
        serde_json::Value::Object(o) => JsonValue::Object(
            o.into_iter().map(|(k, v)| (k, from_serde(v))).collect(),
        ),
    }
}

/// Rebuilds a [`JsonValue`] as a `serde_json::Value`, variant by variant.
/// Members are inserted in order into a `serde_json::Map`.
#[verifier::external_body]
fn to_serde(value: &JsonValue) -> serde_json::Value {
    match value {
        JsonValue::Null => serde_json::Value::Null,
        JsonValue::Bool(b) => serde_json::Value::Bool(*b),
        JsonValue::Number(n) => serde_json::Value::Number(n.clone()),
        JsonValue::String(s) => serde_json::Value::String(s.clone()),
        JsonValue::Array(a) => serde_json::Value::Array(a.iter().map(to_serde).collect()),
        JsonValue::Object(o) => serde_json::Value::Object(
            o.iter().map(|(k, v)| (k.clone(), to_serde(v))).collect(),
        ),
    }
}

/// `serde_json::from_str` into a `serde_json::Value`, rebuilt as a
/// [`JsonValue`]; an error comes back as its message.  The result is a
/// function of the text alone; nothing is claimed of which texts parse.
#[verifier::external_body]
pub(crate) fn parse_text(text: &str) -> (r: Result<JsonValue, String>)
    ensures
        json_parse(text@) == outcome_view(r),
{
    match serde_json::from_str::<serde_json::Value>(text) {
        Ok(v) => Ok(from_serde(v)),
        Err(e) => Err(e.to_string()),
    }
}

/// `serde_json::to_string` of a value, rebuilt as a `serde_json::Value`.
/// It succeeds: the writer is a byte vector, which takes every write, the
/// keys of a `Value` are strings and its numbers are finite.  The text is a
/// function of the value alone.
#[verifier::external_body]
pub(crate) fn print_text(value: &JsonValue) -> (r: Result<String, String>)
    ensures
        r is Ok,
        r matches Ok(s) ==> s@ == json_text(value@),
{
    serde_json::to_string(&to_serde(value)).map_err(|e| e.to_string())
}

/// `serde_json::to_string_pretty` of a value, rebuilt as a
/// `serde_json::Value`.  It succeeds, for the reasons given for the compact
/// print, and the text is a function of the value alone.
#[verifier::external_body]
pub(crate) fn print_text_pretty(value: &JsonValue) -> (r: Result<String, String>)
    ensures
        r is Ok,
        r matches Ok(s) ==> s@ == json_text_pretty(value@),
{
    serde_json::to_string_pretty(&to_serde(value)).map_err(|e| e.to_string())
}

} // verus!
