//! JSON values, as plain values.

use vstd::prelude::*;

use crate::text::same_text;

verus! {

/// A 64-bit float, held as the decimal text that it prints as.
#[derive(Debug, PartialEq)]
pub struct Double {
    pub text: String,
}

impl Clone for Double {
    fn clone(&self) -> (copy: Self)
        ensures
            copy == *self,
    {
        Double { text: self.text.clone() }
    }
}

/// A JSON number: the text that JSON writes it with, and the 64-bit float
/// nearest to it, if it has one.
#[derive(Debug, PartialEq)]
pub struct JsonNumber {
    pub text: String,
    pub double: Option<Double>,
}

/// A JSON value.
pub enum JsonValue {
    Null,
    Bool(bool),
    Number(JsonNumber),
    String(String),
    Array(Vec<JsonValue>),
    Object(Vec<(String, JsonValue)>),
}

/// The value of the first member of that name.
pub open spec fn first_member(members: Seq<(String, JsonValue)>, name: Seq<char>) -> Option<JsonValue>
    decreases members.len(),
{
    if members.len() == 0 {
        None
    } else if members[0].0@ == name {
        Some(members[0].1)
    } else {
        first_member(members.skip(1), name)
    }
}

/// The member of a JSON object of that name. Only an object has members.
pub open spec fn member(value: JsonValue, name: Seq<char>) -> Option<JsonValue> {
    match value {
        JsonValue::Object(members) => first_member(members@, name),
        _ => None,
    }
}

/// Looks a member of a JSON object up.
pub fn get<'a>(value: &'a JsonValue, name: &str) -> (found: Option<&'a JsonValue>)
    ensures
        match found {
            Some(found) => member(*value, name@) == Some(*found),
            None => member(*value, name@) is None,
        },
{
    let members = match value {
        JsonValue::Object(members) => members,
        _ => {
            return None;
        },
    };
    assert(members@.skip(0) =~= members@);
    for i in 0..members.len()
        invariant
            *value == JsonValue::Object(*members),
            first_member(members@.skip(i as int), name@) == first_member(members@, name@),
    {
        if same_text(members[i].0.as_str(), name) {
            return Some(&members[i].1);
        }
        assert(members@.skip(i as int).skip(1) =~= members@.skip(i + 1));
    }
    None
}

/// The flat text of a scalar: strings unquoted, numbers as JSON writes them,
/// booleans as `1` or `0`. Nulls, arrays and objects have none.
pub open spec fn hash_field(value: JsonValue) -> Option<Seq<char>> {
    match value {
        JsonValue::String(text) => Some(text@),
        JsonValue::Number(number) => Some(number.text@),
        JsonValue::Bool(true) => Some("1"@),
        JsonValue::Bool(false) => Some("0"@),
        _ => None,
    }
}

/// Converts a JSON value to a text for a flat Redis hash field.
pub fn json_value_to_hash_field(value: &JsonValue) -> (field: Option<String>)
    ensures
        match field {
            Some(field) => hash_field(*value) == Some(field@),
            None => hash_field(*value) is None,
        },
{
    match value {
        JsonValue::String(text) => Some(text.clone()),
        JsonValue::Number(number) => Some(number.text.clone()),
        JsonValue::Bool(b) => Some(if *b { "1".to_owned() } else { "0".to_owned() }),
        JsonValue::Null => None,
        JsonValue::Array(_) => None,
        JsonValue::Object(_) => None,
    }
}

} // verus!
