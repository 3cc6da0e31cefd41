//! Storage values: what a column value becomes when it is bound to a statement.

use vstd::prelude::*;
use crate::render::render;
use crate::render::rendered;
use crate::row::value_in;
use crate::row::Row;
use crate::text::texts;
use crate::value::Json;
use crate::value::JsonNumber;
use crate::value::JsonValue;

verus! {

/// The model of a storage value.
pub enum SqlModel {
    Null,
    Integer(int),
    Real(Seq<char>),
    Text(Seq<char>),
}

/// A value in the storage representation: null, integer, real or text. A real
/// is held as its decimal literal.
#[derive(Debug, PartialEq, Eq)]
pub enum SqlValue {
    Null,
    Integer(i64),
    Real(String),
    Text(String),
}

impl View for SqlValue {
    type V = SqlModel;

    open spec fn view(&self) -> SqlModel {
        match self {
            SqlValue::Null => SqlModel::Null,
            SqlValue::Integer(i) => SqlModel::Integer(*i as int),
            SqlValue::Real(literal) => SqlModel::Real(literal@),
            SqlValue::Text(text) => SqlModel::Text(text@),
        }
    }
}

/// The models of a run of storage values, in order.
pub open spec fn sql_models(values: Seq<SqlValue>) -> Seq<SqlModel> {
    Seq::new(values.len(), |i: int| values[i]@)
}

/// The storage value of a JSON value: null stays null, a boolean becomes 0
/// or 1, a number an integer or a real, a string text, and an array or an
/// object the text of its compact JSON form.
pub open spec fn stored(value: Json) -> SqlModel {
    match value {
        Json::Null => SqlModel::Null,
        Json::Bool(b) => SqlModel::Integer(
            if b {
                1
            } else {
                0
            },
        ),
        Json::Integer(i) => SqlModel::Integer(i),
        Json::Decimal(literal) => SqlModel::Real(literal),
        Json::String(text) => SqlModel::Text(text),
        Json::Array(_) => SqlModel::Text(rendered(value)),
        Json::Object(_) => SqlModel::Text(rendered(value)),
    }
}

/// The storage value of a column: null where the column has no value.
pub open spec fn stored_or_null(value: Option<Json>) -> SqlModel {
    match value {
        Some(v) => stored(v),
        None => SqlModel::Null,
    }
}

/// Converts a JSON value to its storage value.
pub fn coerce(value: &JsonValue) -> (out: SqlValue)
    ensures
        out@ == stored(value@),
{
    match value {
        JsonValue::Null => SqlValue::Null,
        JsonValue::Bool(b) => SqlValue::Integer(
            if *b {
                1
            } else {
                0
            },
        ),
        JsonValue::Number(JsonNumber::Integer(i)) => SqlValue::Integer(*i),
        JsonValue::Number(JsonNumber::Decimal(literal)) => SqlValue::Real(literal.clone()),
        JsonValue::String(text) => SqlValue::Text(text.clone()),
        JsonValue::Array(_) => SqlValue::Text(render(value)),
        JsonValue::Object(_) => SqlValue::Text(render(value)),
    }
}

/// The storage values of the given columns of a record, in the columns' order.
pub open spec fn parameters_of(row: Map<Seq<char>, Option<Json>>, columns: Seq<Seq<char>>) -> Seq<
    SqlModel,
> {
    Seq::new(columns.len(), |i: int| stored_or_null(value_in(row, columns[i])))
}

/// Reads the storage values of the given columns from a record.
pub fn parameters(row: &Row, columns: &Vec<String>) -> (out: Vec<SqlValue>)
    ensures
        sql_models(out@) == parameters_of(row@, texts(columns@)),
{
    let mut out: Vec<SqlValue> = Vec::new();
    let mut i: usize = 0;
    while i < columns.len()
        invariant
            i <= columns.len(),
            out@.len() == i,
            forall|k: int|
                0 <= k < i ==> out@[k]@ == stored_or_null(value_in(row@, columns@[k]@)),
        decreases columns.len() - i,
    {
        let value = match row.value_of(columns[i].as_str()) {
            Some(v) => coerce(v),
            None => SqlValue::Null,
        };
        out.push(value);
        i += 1;
    }
    assert(sql_models(out@) =~= parameters_of(row@, texts(columns@)));
    out
}

} // verus!
