//! The column values of one record.

use vstd::prelude::*;
use crate::value::Json;
use crate::value::JsonValue;

verus! {

/// The value that `row` holds for `column`, if it holds one.
pub open spec fn value_in(row: Map<Seq<char>, Option<Json>>, column: Seq<char>) -> Option<Json> {
    if row.contains_key(column) {
        row[column]
    } else {
        None
    }
}

/// Whether `column` has no value in `row`: the record does not name it, marks
/// it as having none, or holds a JSON null for it.
pub open spec fn lacks_value(row: Map<Seq<char>, Option<Json>>, column: Seq<char>) -> bool {
    value_in(row, column) is None || value_in(row, column) == Some(Json::Null)
}

/// The model of a value that may be missing.
pub open spec fn held(value: Option<JsonValue>) -> Option<Json> {
    match value {
        Some(v) => Some(v@),
        None => None,
    }
}

struct RowEntry {
    column: String,
    value: Option<JsonValue>,
}

/// The column values of one record: each column named in it either has a
/// value or is marked as having none.
pub struct Row {
    entries: Vec<RowEntry>,
}

spec fn entries_map(entries: Seq<RowEntry>) -> Map<Seq<char>, Option<Json>>
    decreases entries.len(),
{
    if entries.len() == 0 {
        Map::empty()
    } else {
        entries_map(entries.drop_last()).insert(entries.last().column@, held(entries.last().value))
    }
}

impl View for Row {
    type V = Map<Seq<char>, Option<Json>>;

    closed spec fn view(&self) -> Map<Seq<char>, Option<Json>> {
        entries_map(self.entries@)
    }
}

impl Row {
    /// A record that names no column.
    pub fn new() -> (row: Row)
        ensures
            row@ == Map::<Seq<char>, Option<Json>>::empty(),
    {
        Row { entries: Vec::new() }
    }

    /// Sets the value of `column`, replacing what the record held for it.
    pub fn insert(&mut self, column: String, value: Option<JsonValue>)
        ensures
            final(self)@ == old(self)@.insert(column@, held(value)),
    {
        let ghost before = self.entries@;
        self.entries.push(RowEntry { column, value });
        proof {
            assert(self.entries@.drop_last() =~= before);
        }
    }

    fn position(&self, column: &str) -> (found: Option<usize>)
        ensures
            match found {
                Some(i) => i < self.entries@.len() && self.entries@[i as int].column@ == column@
                    && self@.contains_key(column@) && self@[column@] == held(
                    self.entries@[i as int].value,
                ),
                None => !self@.contains_key(column@),
            },
    {
        let ghost all = self.entries@;
        let mut i: usize = self.entries.len();
        proof {
            assert(all.take(i as int) =~= all);
        }
        while i > 0
            invariant
                i <= self.entries.len(),
                all == self.entries@,
                entries_map(all).contains_key(column@) == entries_map(
                    all.take(i as int),
                ).contains_key(column@),
                entries_map(all).contains_key(column@) ==> entries_map(all)[column@]
                    == entries_map(all.take(i as int))[column@],
            decreases i,
        {
            i -= 1;
            proof {
                let upto = all.take(i + 1);
                assert(upto.drop_last() =~= all.take(i as int));
                assert(upto.last() == all[i as int]);
            }
            if self.entries[i].column.as_str().eq(column) {
                return Some(i);
            }
        }
        proof {
            assert(all.take(0).len() == 0);
        }
        None
    }

    /// Whether the record names `column`, with or without a value.
    pub fn contains_key(&self, column: &str) -> (found: bool)
        ensures
            found == self@.contains_key(column@),
    {
        self.position(column).is_some()
    }

    /// Whether `column` has no value: it is not named, is marked as having
    /// none, or holds a JSON null.
    pub fn lacks_value(&self, column: &str) -> (lacking: bool)
        ensures
            lacking == lacks_value(self@, column@),
    {
        match self.value_of(column) {
            None => true,
            Some(JsonValue::Null) => true,
            Some(_) => false,
        }
    }

    /// The value that the record holds for `column`, if it holds one.
    pub fn value_of(&self, column: &str) -> (found: Option<&JsonValue>)
        ensures
            match found {
                Some(value) => value_in(self@, column@) == Some(value@),
                None => value_in(self@, column@) is None,
            },
    {
        match self.position(column) {
            Some(i) => match &self.entries[i].value {
                Some(value) => Some(value),
                None => None,
            },
            None => None,
        }
    }
}

} // verus!
