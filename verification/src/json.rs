//! Decoded JSON records, as plain values: an engine output line or array
//! element becomes a list of named fields, each a scalar, a string list,
//! or an `Other` marker for anything a record field cannot hold.

use vstd::prelude::*;

use crate::text::str_eq;

use serde_json::{Map as JsonMap, Value};

verus! {

/// One decoded JSON field value. `Other` stands for what no record field
/// can hold: null, nested objects, and numbers outside the signed 64-bit
/// range; a string list keeps a non-string element as an absent slot.
#[derive(Debug)]
pub enum Field {
    Bool(bool),
    Int(i64),
    Str(String),
    List(Vec<Option<String>>),
    Other,
}

/// A decoded JSON object: its fields in decoded order.
pub type Record = Vec<(String, Field)>;

/// What a text parses to as one JSON object, named after `serde_json`'s
/// result: it depends on the text alone.
pub uninterp spec fn record_of(s: Seq<char>) -> Result<Record, String>;

/// What a text parses to as one JSON array of objects, named after
/// `serde_json`'s result: it depends on the text alone.
pub uninterp spec fn record_array_of(s: Seq<char>) -> Result<Vec<Record>, String>;

/// Relies on `serde_json::from_str::<Map<String, Value>>`: parses a text
/// as one JSON object; the value variants are carried over one for one.
#[verifier::external_body]
pub(crate) fn parse_json_record(text: &str) -> (r: Result<Record, String>)
    ensures
        r == record_of(text@),
{
    match serde_json::from_str::<JsonMap<String, Value>>(text) {
        Ok(m) => Ok(m.into_iter().map(|(k, v)| (k, match v {
            Value::Bool(b) => Field::Bool(b),
            Value::Number(n) => n.as_i64().map_or(Field::Other, Field::Int),
            Value::String(s) => Field::Str(s),
            Value::Array(a) => Field::List(a.into_iter().map(|x|
                if let Value::String(s) = x { Some(s) } else { None }).collect()),
            _ => Field::Other,
        })).collect()),
        Err(e) => Err(e.to_string()),
    }
}

/// Relies on `serde_json::from_str::<Vec<Map<String, Value>>>`: parses a
/// text as one JSON array of objects; the value variants are carried over
/// one for one.
#[verifier::external_body]
pub(crate) fn parse_json_record_array(text: &str) -> (r: Result<Vec<Record>, String>)
    ensures
        r == record_array_of(text@),
{
    match serde_json::from_str::<Vec<JsonMap<String, Value>>>(text) {
        Ok(ms) => Ok(ms.into_iter().map(|m| m.into_iter().map(|(k, v)| (k, match v {
            Value::Bool(b) => Field::Bool(b),
            Value::Number(n) => n.as_i64().map_or(Field::Other, Field::Int),
            Value::String(s) => Field::Str(s),
            Value::Array(a) => Field::List(a.into_iter().map(|x|
                if let Value::String(s) = x { Some(s) } else { None }).collect()),
            _ => Field::Other,
        })).collect()).collect()),
        Err(e) => Err(e.to_string()),
    }
}

/// The value of the first field named `name`, if any.
pub open spec fn field_lookup(rec: Seq<(String, Field)>, name: Seq<char>) -> Option<Field>
    decreases rec.len(),
{
    if rec.len() == 0 {
        None
    } else if rec[0].0@ == name {
        Some(rec[0].1)
    } else {
        field_lookup(rec.drop_first(), name)
    }
}

proof fn lemma_field_lookup_skip(rec: Seq<(String, Field)>, name: Seq<char>, i: int)
    requires
        0 <= i <= rec.len(),
        forall|k: int| 0 <= k < i ==> (#[trigger] rec[k]).0@ != name,
    ensures
        field_lookup(rec, name) == field_lookup(rec.skip(i), name),
    decreases i,
{
    if i > 0 {
        let d = rec.drop_first();
        assert(forall|k: int| 0 <= k < i - 1 ==> (#[trigger] d[k]).0@ != name);
        lemma_field_lookup_skip(d, name, i - 1);
        assert(d.skip(i - 1) =~= rec.skip(i));
    } else {
        assert(rec.skip(0) =~= rec);
    }
}

/// Finds the first field named `name`, by reference.
pub fn get_field<'a>(rec: &'a Record, name: &str) -> (r: Option<&'a Field>)
    ensures
        match r {
            Some(f) => field_lookup(rec@, name@) == Some(*f),
            None => field_lookup(rec@, name@) is None,
        },
{
    let mut i: usize = 0;
    while i < rec.len()
        invariant
            0 <= i <= rec@.len(),
            forall|k: int| 0 <= k < i ==> (#[trigger] rec@[k]).0@ != name@,
        decreases rec@.len() - i,
    {
        if str_eq(rec[i].0.as_str(), name) {
            proof {
                lemma_field_lookup_skip(rec@, name@, i as int);
                assert(rec@.skip(i as int)[0] == rec@[i as int]);
            }
            return Some(&rec[i].1);
        }
        i = i + 1;
    }
    proof {
        lemma_field_lookup_skip(rec@, name@, rec@.len() as int);
        assert(rec@.skip(rec@.len() as int) =~= Seq::<(String, Field)>::empty());
    }
    None
}

/// Whether a required string field stands in the record.
pub open spec fn str_field_ok(rec: Seq<(String, Field)>, name: Seq<char>) -> bool {
    field_lookup(rec, name) matches Some(Field::Str(_))
}

/// The text of a required string field.
pub open spec fn str_field_val(rec: Seq<(String, Field)>, name: Seq<char>) -> Seq<char> {
    match field_lookup(rec, name) {
        Some(Field::Str(s)) => s@,
        _ => Seq::empty(),
    }
}

/// Whether an optional string field is absent or a string.
pub open spec fn opt_str_ok(rec: Seq<(String, Field)>, name: Seq<char>) -> bool {
    match field_lookup(rec, name) {
        None => true,
        Some(Field::Str(_)) => true,
        Some(_) => false,
    }
}

/// The text of an optional string field, empty where absent.
pub open spec fn opt_str_val(rec: Seq<(String, Field)>, name: Seq<char>) -> Seq<char> {
    match field_lookup(rec, name) {
        Some(Field::Str(s)) => s@,
        _ => Seq::empty(),
    }
}

/// Whether an optional integer field is absent or an integer.
pub open spec fn opt_int_ok(rec: Seq<(String, Field)>, name: Seq<char>) -> bool {
    match field_lookup(rec, name) {
        None => true,
        Some(Field::Int(_)) => true,
        Some(_) => false,
    }
}

/// The value of an optional integer field, zero where absent.
pub open spec fn opt_int_val(rec: Seq<(String, Field)>, name: Seq<char>) -> i64 {
    match field_lookup(rec, name) {
        Some(Field::Int(v)) => v,
        _ => 0,
    }
}

/// Whether an optional string-list field is absent or a list of strings
/// throughout.
pub open spec fn opt_list_ok(rec: Seq<(String, Field)>, name: Seq<char>) -> bool {
    match field_lookup(rec, name) {
        None => true,
        Some(Field::List(v)) => forall|k: int| 0 <= k < v@.len() ==> (#[trigger] v@[k]) is Some,
        Some(_) => false,
    }
}

/// The texts of an optional string-list field, empty where absent.
pub open spec fn opt_list_val(rec: Seq<(String, Field)>, name: Seq<char>) -> Seq<Seq<char>> {
    match field_lookup(rec, name) {
        Some(Field::List(v)) => v@.map_values(|o: Option<String>| o->0@),
        _ => Seq::empty(),
    }
}

} // verus!
