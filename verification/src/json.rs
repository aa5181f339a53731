//! JSON values, as the language server and the client exchange them.

use vstd::prelude::*;

use crate::text::same;

verus! {

/// A JSON value. No name occurs twice in an object.
#[derive(Debug, PartialEq, Eq)]
pub enum Json {
    Null,
    Bool(bool),
    /// A number that is an integer of 64 bits.
    Integer(i64),
    /// Any other number, as it is written.
    Number(String),
    Text(String),
    List(Vec<Json>),
    Object(Vec<(String, Json)>),
}

/// A JSON value.
pub enum Value {
    Null,
    Bool(bool),
    Integer(int),
    Number(Seq<char>),
    Text(Seq<char>),
    List(Seq<Value>),
    Object(Seq<(Seq<char>, Value)>),
}

impl Json {
    /// What a value holds.
    pub open spec fn value(self) -> Value
        decreases self,
    {
        match self {
            Json::Null => Value::Null,
            Json::Bool(b) => Value::Bool(b),
            Json::Integer(n) => Value::Integer(n as int),
            Json::Number(text) => Value::Number(text@),
            Json::Text(text) => Value::Text(text@),
            Json::List(list) => Value::List(values(list@)),
            Json::Object(fields) => Value::Object(fields_view(fields@)),
        }
    }
}

/// The values of a list.
pub open spec fn values(list: Seq<Json>) -> Seq<Value>
    decreases list,
{
    Seq::new(
        list.len(),
        |i: int|
            if 0 <= i < list.len() {
                list[i].value()
            } else {
                Value::Null
            },
    )
}

/// The fields of an object.
pub open spec fn fields_view(fields: Seq<(String, Json)>) -> Seq<(Seq<char>, Value)>
    decreases fields,
{
    Seq::new(
        fields.len(),
        |i: int|
            if 0 <= i < fields.len() {
                (fields[i].0@, fields[i].1.value())
            } else {
                (Seq::empty(), Value::Null)
            },
    )
}

impl View for Json {
    type V = Value;

    open spec fn view(&self) -> Value {
        self.value()
    }
}

/// The first field of that name at or behind `i`.
pub open spec fn field_from(
    fields: Seq<(Seq<char>, Value)>,
    name: Seq<char>,
    i: int,
) -> Option<Value>
    decreases fields.len() - i,
{
    if i >= fields.len() {
        None
    } else if fields[i].0 == name {
        Some(fields[i].1)
    } else {
        field_from(fields, name, i + 1)
    }
}

impl Value {
    /// The field of an object.
    pub open spec fn field(self, name: Seq<char>) -> Option<Value> {
        match self {
            Value::Object(fields) => field_from(fields, name, 0),
            _ => None,
        }
    }

    /// The first value of a list.
    pub open spec fn first(self) -> Option<Value> {
        match self {
            Value::List(list) => if list.len() > 0 {
                Some(list[0])
            } else {
                None
            },
            _ => None,
        }
    }

    /// The text that the field of an object holds.
    pub open spec fn text_field(self, name: Seq<char>) -> Option<Seq<char>> {
        match self.field(name) {
            Some(Value::Text(text)) => Some(text),
            _ => None,
        }
    }

    /// The integer that the field of an object holds.
    pub open spec fn integer_field(self, name: Seq<char>) -> Option<int> {
        match self.field(name) {
            Some(Value::Integer(n)) => Some(n),
            _ => None,
        }
    }
}

impl Json {
    /// The field of an object.
    pub fn get(&self, name: &str) -> (r: Option<&Json>)
        ensures
            match self@.field(name@) {
                Some(value) => r matches Some(found) && found@ == value,
                None => r is None,
            },
    {
        let Json::Object(fields) = self else {
            return None;
        };
        let ghost all = fields_view(fields@);
        assert(self@ is Object && self@->Object_0 =~= all);
        let mut i: usize = 0;
        while i < fields.len()
            invariant
                i <= fields@.len(),
                all == fields_view(fields@),
                self@ == Value::Object(all),
                field_from(all, name@, 0) == field_from(all, name@, i as int),
            decreases fields@.len() - i,
        {
            assert(all[i as int] == (fields@[i as int].0@, fields@[i as int].1@));
            if same(fields[i].0.as_str(), name) {
                return Some(&fields[i].1);
            }
            i = i + 1;
        }
        None
    }

    /// The text that the field of an object holds.
    pub fn get_text(&self, name: &str) -> (r: Option<&str>)
        ensures
            match self@.text_field(name@) {
                Some(text) => r matches Some(found) && found@ == text,
                None => r is None,
            },
    {
        match self.get(name) {
            Some(Json::Text(text)) => Some(text.as_str()),
            _ => None,
        }
    }

    /// The integer that the field of an object holds.
    pub fn get_integer(&self, name: &str) -> (r: Option<i64>)
        ensures
            match self@.integer_field(name@) {
                Some(n) => r matches Some(found) && found == n,
                None => r is None,
            },
    {
        match self.get(name) {
            Some(Json::Integer(n)) => Some(*n),
            _ => None,
        }
    }

    /// The field of an object, taken out of it.
    pub fn take(self, name: &str) -> (r: Option<Json>)
        ensures
            match self@.field(name@) {
                Some(value) => r matches Some(found) && found@ == value,
                None => r is None,
            },
    {
        let ghost whole = self@;
        let Json::Object(fields) = self else {
            return None;
        };
        let mut fields = fields;
        let ghost all = fields_view(fields@);
        assert(whole is Object && whole->Object_0 =~= all);
        let mut i: usize = 0;
        while i < fields.len()
            invariant
                i <= fields@.len(),
                all == fields_view(fields@),
                whole == Value::Object(all),
                whole == self@,
                field_from(all, name@, 0) == field_from(all, name@, i as int),
            decreases fields@.len() - i,
        {
            assert(all[i as int] == (fields@[i as int].0@, fields@[i as int].1@));
            if same(fields[i].0.as_str(), name) {
                return Some(fields.remove(i).1);
            }
            i = i + 1;
        }
        None
    }

    /// The first value of a list, taken out of it.
    pub fn take_first(self) -> (r: Option<Json>)
        ensures
            match self@.first() {
                Some(value) => r matches Some(found) && found@ == value,
                None => r is None,
            },
    {
        let ghost whole = self@;
        let Json::List(list) = self else {
            return None;
        };
        let mut list = list;
        assert(whole is List && whole->List_0 =~= values(list@));
        if list.len() == 0 {
            return None;
        }
        assert(values(list@)[0] == list@[0]@);
        Some(list.remove(0))
    }
}

/// A list of values.
pub fn list_of(items: Vec<Json>) -> (r: Json)
    ensures
        r@ == Value::List(values(items@)),
{
    Json::List(items)
}

/// An object with these fields.
pub fn object_of(fields: Vec<(String, Json)>) -> (r: Json)
    ensures
        r@ == Value::Object(fields_view(fields@)),
{
    Json::Object(fields)
}

/// A text.
pub fn text_of(text: &str) -> (r: Json)
    ensures
        r@ == Value::Text(text@),
{
    Json::Text(text.to_string())
}

/// An object with one field.
pub fn object1(name: &str, value: Json) -> (r: Json)
    ensures
        r@ == Value::Object(seq![(name@, value@)]),
{
    let ghost view = seq![(name@, value@)];
    let mut fields: Vec<(String, Json)> = Vec::new();
    fields.push((name.to_string(), value));
    assert(fields_view(fields@) =~= view);
    object_of(fields)
}

/// An object with two fields.
pub fn object2(name: &str, value: Json, name2: &str, value2: Json) -> (r: Json)
    ensures
        r@ == Value::Object(seq![(name@, value@), (name2@, value2@)]),
{
    let ghost view = seq![(name@, value@), (name2@, value2@)];
    let mut fields: Vec<(String, Json)> = Vec::new();
    fields.push((name.to_string(), value));
    fields.push((name2.to_string(), value2));
    assert(fields_view(fields@) =~= view);
    object_of(fields)
}

/// An object with three fields.
pub fn object3(
    name: &str,
    value: Json,
    name2: &str,
    value2: Json,
    name3: &str,
    value3: Json,
) -> (r: Json)
    ensures
        r@ == Value::Object(seq![(name@, value@), (name2@, value2@), (name3@, value3@)]),
{
    let ghost view = seq![(name@, value@), (name2@, value2@), (name3@, value3@)];
    let mut fields: Vec<(String, Json)> = Vec::new();
    fields.push((name.to_string(), value));
    fields.push((name2.to_string(), value2));
    fields.push((name3.to_string(), value3));
    assert(fields_view(fields@) =~= view);
    object_of(fields)
}

/// A list with one value.
pub fn list1(value: Json) -> (r: Json)
    ensures
        r@ == Value::List(seq![value@]),
{
    let ghost view = seq![value@];
    let mut items: Vec<Json> = Vec::new();
    items.push(value);
    assert(values(items@) =~= view);
    list_of(items)
}

} // verus!
