//! JSON values: what a `serde_json::Value` holds, and the reads and writes that the relay makes.
use crate::ieee::{is_finite, ZERO};
use serde_json::Value;
use vstd::prelude::*;

verus! {

/// `serde_json::Value`, opaque to the proofs. What one holds is named by `json`.
#[verifier::external_type_specification]
#[verifier::external_body]
pub struct ExValue(serde_json::Value);

/// A JSON document.
pub enum Json {
    Null,
    Bool(bool),
    /// A number, by the bit pattern of its nearest double. One that is held as an integer, not as
    /// a double, is also given exactly.
    Number { bits: u64, exact: Option<int> },
    Text(Seq<char>),
    Array(Seq<Json>),
    Object(Map<Seq<char>, Json>),
}

/// What a `serde_json::Value` holds.
pub uninterp spec fn json(v: Value) -> Json;

/// A number that is held as a double.
pub open spec fn float_json(bits: u64) -> Json {
    Json::Number { bits, exact: None }
}

/// How a double is written: as a number if it is finite, else as null.
pub open spec fn double_json(bits: u64) -> Json {
    if is_finite(bits) {
        float_json(bits)
    } else {
        Json::Null
    }
}

impl Json {
    /// The field of an object. Nothing but an object has fields.
    pub open spec fn field(self, key: Seq<char>) -> Option<Json> {
        match self {
            Json::Object(fields) => if fields.contains_key(key) {
                Some(fields[key])
            } else {
                None
            },
            _ => None,
        }
    }

    /// The text of a field, if the field is there and is text.
    pub open spec fn text(self, key: Seq<char>) -> Option<Seq<char>> {
        match self.field(key) {
            Some(Json::Text(s)) => Some(s),
            _ => None,
        }
    }

    /// The number in a field, if the field is there and is a number.
    pub open spec fn number(self, key: Seq<char>) -> Option<u64> {
        match self.field(key) {
            Some(Json::Number { bits, .. }) => Some(bits),
            _ => None,
        }
    }

    /// The object with one field set. What is not an object stays as it is.
    pub open spec fn with(self, key: Seq<char>, value: Json) -> Json {
        match self {
            Json::Object(fields) => Json::Object(fields.insert(key, value)),
            other => other,
        }
    }

    /// The object without one field. What is not an object stays as it is.
    pub open spec fn without(self, key: Seq<char>) -> Json {
        match self {
            Json::Object(fields) => Json::Object(fields.remove(key)),
            other => other,
        }
    }
}

/// `Value::get` with a string: the field of an object under that key, and nothing where the
/// value is no object or has no such field.
#[verifier::external_body]
fn value_get<'a>(v: &'a Value, key: &str) -> (r: Option<&'a Value>)
    ensures
        match r {
            Some(x) => json(*v).field(key@) == Some(json(*x)),
            None => json(*v).field(key@) is None,
        },
{
    v.get(key)
}

/// `Value::as_str`: the text of a string, and nothing for any other value.
#[verifier::external_body]
fn value_as_str(v: &Value) -> (r: Option<&str>)
    ensures
        match r {
            Some(s) => json(*v) == Json::Text(s@),
            None => !(json(*v) is Text),
        },
{
    v.as_str()
}

/// `Value::as_f64`, by bit pattern: the double nearest to a number, and nothing for any other
/// value. The double is always finite.
#[verifier::external_body]
fn value_as_f64(v: &Value) -> (r: Option<u64>)
    ensures
        match r {
            Some(b) => json(*v) is Number && json(*v)->bits == b && is_finite(b),
            None => !(json(*v) is Number),
        },
{
    v.as_f64().map(|x| x.to_bits())
}

/// `Value::from` on the double that `Value::as_f64` gives: the same number, held as a double.
/// Nothing comes of a value that is no number.
#[verifier::external_body]
fn value_as_float(v: &Value) -> (r: Option<Value>)
    ensures
        match r {
            Some(x) => json(*v) is Number && json(x) == float_json(json(*v)->bits),
            None => !(json(*v) is Number),
        },
{
    v.as_f64().map(|x| Value::from(x))
}

/// `Value::is_object`.
#[verifier::external_body]
fn value_is_object(v: &Value) -> (r: bool)
    ensures
        r == (json(*v) is Object),
{
    v.is_object()
}

/// `Map::insert` on the map that `Value::as_object_mut` gives: sets one field of an object and
/// leaves the others alone.
#[verifier::external_body]
fn value_insert(v: &mut Value, key: &str, field: Value)
    requires
        json(*old(v)) is Object,
    ensures
        json(*final(v)) == json(*old(v)).with(key@, json(field)),
{
    v.as_object_mut().unwrap().insert(key.to_string(), field);
}

/// `Map::remove` on the map that `Value::as_object_mut` gives: takes one field out of an object,
/// if it is there, and leaves the others alone.
#[verifier::external_body]
fn value_remove(v: &mut Value, key: &str)
    requires
        json(*old(v)) is Object,
    ensures
        json(*final(v)) == json(*old(v)).without(key@),
{
    v.as_object_mut().unwrap().remove(key);
}

/// `Value::clone`: a value that holds the same.
#[verifier::external_body]
fn value_clone(v: &Value) -> (r: Value)
    ensures
        json(r) == json(*v),
{
    v.clone()
}

/// `Value::Array`: an array of the given values, in their order.
#[verifier::external_body]
fn value_array(items: Vec<Value>) -> (r: Value)
    ensures
        json(r) == Json::Array(items@.map_values(|v: Value| json(v))),
{
    Value::Array(items)
}

/// `Value::from` on a string: that text.
#[verifier::external_body]
fn value_text(s: &str) -> (r: Value)
    ensures
        json(r) == Json::Text(s@),
{
    Value::from(s)
}

/// `Value::from` on a truth value: that truth value.
#[verifier::external_body]
fn value_bool(b: bool) -> (r: Value)
    ensures
        json(r) == Json::Bool(b),
{
    Value::from(b)
}

/// `Value::from` on the integer 0: the number 0, held as an integer.
#[verifier::external_body]
fn value_zero() -> (r: Value)
    ensures
        json(r) == (Json::Number { bits: ZERO, exact: Some(0int) }),
{
    Value::from(0u64)
}

/// `Map::new` as a value: an object without fields.
#[verifier::external_body]
fn value_object() -> (r: Value)
    ensures
        json(r) == Json::Object(Map::empty()),
{
    Value::Object(serde_json::Map::new())
}

/// A JSON value as the relay handles it. Its view is the document that it holds.
pub struct Record {
    pub value: Value,
}

impl View for Record {
    type V = Json;

    open spec fn view(&self) -> Json {
        json(self.value)
    }
}

/// The documents that a list of records holds.
pub open spec fn documents(records: Seq<Record>) -> Seq<Json> {
    records.map_values(|r: Record| r@)
}

impl Record {
    /// An object without fields.
    pub fn object() -> (r: Record)
        ensures
            r@ == Json::Object(Map::empty()),
    {
        Record { value: value_object() }
    }

    /// A text.
    pub fn text(s: &str) -> (r: Record)
        ensures
            r@ == Json::Text(s@),
    {
        Record { value: value_text(s) }
    }

    /// A truth value.
    pub fn boolean(b: bool) -> (r: Record)
        ensures
            r@ == Json::Bool(b),
    {
        Record { value: value_bool(b) }
    }

    /// The number 0, held as a double.
    pub fn zero() -> (r: Record)
        ensures
            r@ == float_json(ZERO),
    {
        let zero = value_zero();
        match value_as_float(&zero) {
            Some(x) => Record { value: x },
            None => Record { value: zero },
        }
    }

    /// An array of the given records, in their order.
    pub fn array(items: Vec<Record>) -> (r: Record)
        ensures
            r@ == Json::Array(documents(items@)),
    {
        let mut values: Vec<Value> = Vec::new();
        let ghost records = items@;
        for record in it: items
            invariant
                it.seq() == records,
                values.len() == it.index(),
                forall|i: int| 0 <= i < values.len() ==> values[i] == records[i].value,
        {
            values.push(record.value);
        }
        assert(values@.map_values(|v: Value| json(v)) =~= documents(records));
        Record { value: value_array(values) }
    }

    /// A record that holds the same.
    pub fn duplicate(&self) -> (r: Record)
        ensures
            r@ == self@,
    {
        Record { value: value_clone(&self.value) }
    }

    /// The text of a field, if the field is there and is text.
    pub fn get_text(&self, key: &str) -> (r: Option<&str>)
        ensures
            match r {
                Some(s) => self@.text(key@) == Some(s@),
                None => self@.text(key@) is None,
            },
    {
        match value_get(&self.value, key) {
            Some(v) => value_as_str(v),
            None => None,
        }
    }

    /// The number in a field, if the field is there and is a number. It is finite.
    pub fn get_number(&self, key: &str) -> (r: Option<u64>)
        ensures
            r == self@.number(key@),
            r matches Some(bits) ==> is_finite(bits),
    {
        match value_get(&self.value, key) {
            Some(v) => value_as_f64(v),
            None => None,
        }
    }

    /// The number, if the record is one. It is finite.
    pub fn as_number(&self) -> (r: Option<u64>)
        ensures
            match r {
                Some(bits) => self@ is Number && self@->bits == bits && is_finite(bits),
                None => !(self@ is Number),
            },
    {
        value_as_f64(&self.value)
    }

    /// The number in a field as a record of its own, held as a double.
    pub fn get_float(&self, key: &str) -> (r: Option<Record>)
        ensures
            match r {
                Some(x) => self@.number(key@) is Some && x@ == float_json(self@.number(key@)->0),
                None => self@.number(key@) is None,
            },
    {
        match value_get(&self.value, key) {
            Some(v) => match value_as_float(v) {
                Some(x) => Some(Record { value: x }),
                None => None,
            },
            None => None,
        }
    }

    /// Sets one field of an object. What is not an object stays as it is.
    pub fn set(&mut self, key: &str, field: Record)
        ensures
            final(self)@ == old(self)@.with(key@, field@),
    {
        if value_is_object(&self.value) {
            value_insert(&mut self.value, key, field.value);
        }
    }

    /// Takes one field out of an object, if it is there. What is not an object stays as it is.
    pub fn unset(&mut self, key: &str)
        ensures
            final(self)@ == old(self)@.without(key@),
    {
        if value_is_object(&self.value) {
            value_remove(&mut self.value, key);
        }
    }
}

/// Setting a field changes that field and no other, and leaves what is not an object alone.
pub proof fn set_changes_one_field(record: Json, key: Seq<char>, value: Json, other: Seq<char>)
    ensures
        record is Object ==> record.with(key, value).field(key) == Some(value),
        other != key ==> record.with(key, value).field(other) == record.field(other),
        !(record is Object) ==> record.with(key, value) == record,
{
}

/// Taking a field out leaves no such field and changes no other, and leaves what is not an object
/// alone.
pub proof fn unset_changes_one_field(record: Json, key: Seq<char>, other: Seq<char>)
    ensures
        record.without(key).field(key) is None,
        other != key ==> record.without(key).field(other) == record.field(other),
        !(record is Object) ==> record.without(key) == record,
{
}

/// What is read of a field: its number, whether it is held as an integer or as a double, if it is
/// one, and its text if it is text. A field that is missing or of another kind has neither, and
/// what is not an object has no fields.
pub proof fn reads_go_by_the_field(record: Json, fields: Map<Seq<char>, Json>, key: Seq<char>)
    ensures
        record == Json::Object(fields) && fields.contains_key(key) ==> {
            &&& record.field(key) == Some(fields[key])
            &&& fields[key] matches Json::Number { bits, exact } ==> record.number(key) == Some(bits)
            &&& fields[key] matches Json::Text(s) ==> record.text(key) == Some(s)
            &&& !(fields[key] is Number) ==> record.number(key) is None
            &&& !(fields[key] is Text) ==> record.text(key) is None
        },
        !(record is Object) || record == Json::Object(fields) && !fields.contains_key(key) ==> {
            &&& record.field(key) is None
            &&& record.number(key) is None
            &&& record.text(key) is None
        },
{
}

/// A list of records holds one document for each record, in the order of the records.
pub proof fn documents_are_those_of_the_records(records: Seq<Record>)
    ensures
        documents(records).len() == records.len(),
        forall|i: int|
            0 <= i < records.len() ==> (#[trigger] documents(records)[i]) == json(
                records[i].value,
            ),
{
}

/// A finite double is written as that number, and what is not finite as null.
pub proof fn finite_doubles_are_written_as_numbers(bits: u64)
    ensures
        float_json(bits) == (Json::Number { bits, exact: None }),
        is_finite(bits) ==> double_json(bits) == (Json::Number { bits, exact: None }),
        !is_finite(bits) ==> double_json(bits) == Json::Null,
{
}

} // verus!
