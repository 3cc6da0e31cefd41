//! JSON values and their mathematical model.

use vstd::prelude::*;

verus! {

/// The mathematical model of a JSON value.
pub enum Json {
    Null,
    Bool(bool),
    Integer(int),
    Decimal(Seq<char>),
    String(Seq<char>),
    Array(Seq<Json>),
    Object(Seq<(Seq<char>, Json)>),
}

/// A JSON number.
#[derive(Debug, PartialEq, Eq)]
pub enum JsonNumber {
    /// A whole number within the signed 64-bit range.
    Integer(i64),
    /// Any other number, held as its JSON literal.
    Decimal(String),
}

/// One `key: value` entry of a JSON object.
#[derive(Debug, PartialEq, Eq)]
pub struct JsonMember {
    pub key: String,
    pub value: JsonValue,
}

/// A parsed JSON document or any value inside one.
#[derive(Debug, PartialEq, Eq)]
pub enum JsonValue {
    Null,
    Bool(bool),
    Number(JsonNumber),
    String(String),
    Array(Vec<JsonValue>),
    Object(Vec<JsonMember>),
}

impl View for JsonNumber {
    type V = Json;

    open spec fn view(&self) -> Json {
        match self {
            JsonNumber::Integer(i) => Json::Integer(*i as int),
            JsonNumber::Decimal(text) => Json::Decimal(text@),
        }
    }
}

impl View for JsonValue {
    type V = Json;

    open spec fn view(&self) -> Json
        decreases self,
    {
        match self {
            JsonValue::Null => Json::Null,
            JsonValue::Bool(b) => Json::Bool(*b),
            JsonValue::Number(n) => n.view(),
            JsonValue::String(s) => Json::String(s@),
            JsonValue::Array(items) => Json::Array(models(items@)),
            JsonValue::Object(members) => Json::Object(member_models(members@)),
        }
    }
}

impl View for JsonMember {
    type V = (Seq<char>, Json);

    open spec fn view(&self) -> (Seq<char>, Json) {
        (self.key@, self.value@)
    }
}

/// The models of a run of values, in order.
pub open spec fn models(items: Seq<JsonValue>) -> Seq<Json>
    decreases items,
{
    Seq::new(
        items.len(),
        |i: int|
            if 0 <= i < items.len() {
                items[i].view()
            } else {
                Json::Null
            },
    )
}

/// The models of a run of object entries, in order.
pub open spec fn member_models(members: Seq<JsonMember>) -> Seq<(Seq<char>, Json)>
    decreases members,
{
    Seq::new(
        members.len(),
        |i: int|
            if 0 <= i < members.len() {
                (members[i].key@, members[i].value.view())
            } else {
                (Seq::empty(), Json::Null)
            },
    )
}

impl Clone for JsonNumber {
    fn clone(&self) -> (out: Self)
        ensures
            out@ == self@,
    {
        match self {
            JsonNumber::Integer(i) => JsonNumber::Integer(*i),
            JsonNumber::Decimal(text) => JsonNumber::Decimal(text.clone()),
        }
    }
}

/// Copies a run of values.
pub fn clone_items(items: &Vec<JsonValue>) -> (out: Vec<JsonValue>)
    ensures
        models(out@) == models(items@),
    decreases items,
{
    let mut out: Vec<JsonValue> = Vec::new();
    let mut i: usize = 0;
    while i < items.len()
        invariant
            i <= items.len(),
            out@.len() == i,
            forall|k: int| 0 <= k < i ==> out@[k]@ == items@[k]@,
        decreases items.len() - i,
    {
        out.push(items[i].clone());
        i += 1;
    }
    assert(models(out@) =~= models(items@));
    out
}

fn clone_members(members: &Vec<JsonMember>) -> (out: Vec<JsonMember>)
    ensures
        member_models(out@) == member_models(members@),
    decreases members,
{
    let mut out: Vec<JsonMember> = Vec::new();
    let mut i: usize = 0;
    while i < members.len()
        invariant
            i <= members.len(),
            out@.len() == i,
            forall|k: int| 0 <= k < i ==> out@[k]@ == members@[k]@,
        decreases members.len() - i,
    {
        out.push(JsonMember { key: members[i].key.clone(), value: members[i].value.clone() });
        i += 1;
    }
    assert(member_models(out@) =~= member_models(members@));
    out
}

impl Clone for JsonValue {
    fn clone(&self) -> (out: Self)
        ensures
            out@ == self@,
        decreases self,
    {
        match self {
            JsonValue::Null => JsonValue::Null,
            JsonValue::Bool(b) => JsonValue::Bool(*b),
            JsonValue::Number(n) => JsonValue::Number(n.clone()),
            JsonValue::String(s) => JsonValue::String(s.clone()),
            JsonValue::Array(items) => {
                let out = clone_items(items);
                JsonValue::Array(out)
            },
            JsonValue::Object(members) => {
                let out = clone_members(members);
                JsonValue::Object(out)
            },
        }
    }
}

} // verus!
