//! A plain model of the JSON values that the host hands over.

use crate::text::same_text;
use vstd::prelude::*;

verus! {

/// A JSON value. Numbers are integers: nothing read here has a fraction.
#[derive(Debug)]
pub enum JsonValue {
    Null,
    Bool(bool),
    Number(i64),
    Text(String),
    Array(Vec<JsonValue>),
    Object(Vec<JsonField>),
}

/// One member of a JSON object.
#[derive(Debug)]
pub struct JsonField {
    pub name: String,
    pub value: JsonValue,
}

/// The value of the first member called `name`, if there is one.
pub open spec fn member(fields: Seq<JsonField>, name: Seq<char>) -> Option<JsonValue>
    decreases fields.len(),
{
    if fields.len() == 0 {
        None
    } else if fields[0].name@ == name {
        Some(fields[0].value)
    } else {
        member(fields.skip(1), name)
    }
}

/// The member called `name`, if it is a number.
pub open spec fn number_member(fields: Seq<JsonField>, name: Seq<char>) -> Option<int> {
    match member(fields, name) {
        Some(JsonValue::Number(n)) => Some(n as int),
        _ => None,
    }
}

/// The member called `name`, if it is a text.
pub open spec fn text_member(fields: Seq<JsonField>, name: Seq<char>) -> Option<Seq<char>> {
    match member(fields, name) {
        Some(JsonValue::Text(t)) => Some(t@),
        _ => None,
    }
}

/// The member called `name`, if it is an array.
pub open spec fn list_member(fields: Seq<JsonField>, name: Seq<char>) -> Option<Seq<JsonValue>> {
    match member(fields, name) {
        Some(JsonValue::Array(items)) => Some(items@),
        _ => None,
    }
}

/// Looks up the first member called `name`.
pub fn get_member<'a>(fields: &'a Vec<JsonField>, name: &str) -> (found: Option<&'a JsonValue>)
    ensures
        match found {
            Some(value) => member(fields@, name@) == Some(*value),
            None => member(fields@, name@) is None,
        },
{
    let n: usize = fields.len();
    let mut i: usize = 0;
    proof {
        assert(fields@.skip(0) == fields@);
    }
    while i < n
        invariant
            i <= n,
            n == fields@.len(),
            member(fields@, name@) == member(fields@.skip(i as int), name@),
        decreases n - i,
    {
        proof {
            assert(fields@.skip(i as int)[0] == fields@[i as int]);
            assert(fields@.skip(i as int).skip(1) == fields@.skip(i + 1));
        }
        if same_text(fields[i].name.as_str(), name) {
            return Some(&fields[i].value);
        }
        i += 1;
    }
    None
}

} // verus!
