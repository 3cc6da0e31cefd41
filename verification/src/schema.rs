//! Table metadata: columns, unique indexes, identifiers and the statements
//! that read them.

use vstd::prelude::*;
use vstd::string::StringExecFns;
use crate::names::add_names;
use crate::names::with_names;
use crate::text::chars_of;
use crate::text::matches_at;
use crate::text::occurs_at;
use crate::text::replace_all;
use crate::text::replace_text;
use crate::text::texts;
use crate::text::to_uppercase;
use crate::text::uppercase_of;

verus! {

/// The model of a column's metadata.
pub struct ColumnModel {
    pub name: Seq<char>,
    pub data_type: Seq<char>,
    pub not_null: bool,
    pub primary_key: bool,
    pub default_value: Option<Seq<char>>,
}

/// The metadata of one column of a table.
#[derive(Debug, PartialEq, Eq)]
pub struct ColumnInfo {
    pub name: String,
    pub data_type: String,
    pub not_null: bool,
    pub primary_key: bool,
    pub default_value: Option<String>,
}

/// The view of a text that may be missing.
pub open spec fn optional_text(text: Option<String>) -> Option<Seq<char>> {
    match text {
        Some(s) => Some(s@),
        None => None,
    }
}

impl View for ColumnInfo {
    type V = ColumnModel;

    open spec fn view(&self) -> ColumnModel {
        ColumnModel {
            name: self.name@,
            data_type: self.data_type@,
            not_null: self.not_null,
            primary_key: self.primary_key,
            default_value: optional_text(self.default_value),
        }
    }
}

fn clone_optional_text(text: &Option<String>) -> (out: Option<String>)
    ensures
        optional_text(out) == optional_text(*text),
{
    match text {
        Some(s) => Some(s.clone()),
        None => None,
    }
}

impl Clone for ColumnInfo {
    fn clone(&self) -> (out: Self)
        ensures
            out@ == self@,
    {
        ColumnInfo {
            name: self.name.clone(),
            data_type: self.data_type.clone(),
            not_null: self.not_null,
            primary_key: self.primary_key,
            default_value: clone_optional_text(&self.default_value),
        }
    }
}

/// The models of a run of columns, in order.
pub open spec fn column_models(columns: Seq<ColumnInfo>) -> Seq<ColumnModel> {
    Seq::new(columns.len(), |i: int| columns[i]@)
}

/// The names of a run of columns, in order.
pub open spec fn column_names(columns: Seq<ColumnModel>) -> Seq<Seq<char>> {
    Seq::new(columns.len(), |i: int| columns[i].name)
}

/// The first column of the given name, if there is one.
pub open spec fn column_named(columns: Seq<ColumnModel>, name: Seq<char>) -> Option<ColumnModel>
    decreases columns.len(),
{
    if columns.len() == 0 {
        None
    } else if columns[0].name == name {
        Some(columns[0])
    } else {
        column_named(columns.drop_first(), name)
    }
}

/// A column is found by name exactly when the name is among the columns' names.
pub proof fn lemma_column_named(columns: Seq<ColumnModel>, name: Seq<char>)
    ensures
        column_named(columns, name) is Some <==> column_names(columns).contains(name),
        column_named(columns, name) matches Some(column) ==> column.name == name
            && columns.contains(column),
    decreases columns.len(),
{
    let names = column_names(columns);
    if columns.len() == 0 {
    } else if columns[0].name == name {
        assert(names[0] == name);
    } else {
        let rest = columns.drop_first();
        lemma_column_named(rest, name);
        if column_names(rest).contains(name) {
            let k = choose|k: int| 0 <= k < rest.len() && column_names(rest)[k] == name;
            assert(names[k + 1] == name);
        }
        if names.contains(name) {
            let k = choose|k: int| 0 <= k < names.len() && names[k] == name;
            assert(column_names(rest)[k - 1] == name);
        }
        if let Some(column) = column_named(rest, name) {
            let k = choose|k: int| 0 <= k < rest.len() && rest[k] == column;
            assert(columns[k + 1] == column);
        }
    }
}

/// Finds the first column of the given name.
pub fn find_column<'a>(columns: &'a Vec<ColumnInfo>, name: &str) -> (found: Option<&'a ColumnInfo>)
    ensures
        match found {
            Some(column) => column_named(column_models(columns@), name@) == Some(column@),
            None => column_named(column_models(columns@), name@) is None,
        },
{
    let ghost all = column_models(columns@);
    let mut i: usize = 0;
    proof {
        assert(all.skip(0) =~= all);
    }
    while i < columns.len()
        invariant
            i <= columns.len(),
            all == column_models(columns@),
            column_named(all, name@) == column_named(all.skip(i as int), name@),
        decreases columns.len() - i,
    {
        proof {
            assert(all.skip(i as int)[0] == all[i as int]);
            assert(all.skip(i as int).drop_first() =~= all.skip(i + 1));
        }
        if columns[i].name.as_str().eq(name) {
            return Some(&columns[i]);
        }
        i += 1;
    }
    proof {
        assert(all.skip(i as int).len() == 0);
    }
    None
}

/// The model of an uncovered schema requirement.
pub enum SchemaFailure {
    InvalidIdentifier(Seq<char>),
    TableNotFound(Seq<char>),
    KeyColumnNotFound(Seq<char>),
    ColumnsNotFound(Seq<Seq<char>>),
    RequiredColumnsUncovered(Seq<Seq<char>>),
    KeyNotMapped(Seq<char>),
}

/// Why an operation cannot run against the table as it is.
#[derive(Debug, PartialEq, Eq)]
pub enum SchemaError {
    /// A table or column name is not a plain identifier.
    InvalidIdentifier(String),
    /// The table has no columns: it does not exist.
    TableNotFound(String),
    /// The key column of an update is not a column of the table.
    KeyColumnNotFound(String),
    /// These columns to update are not columns of the table.
    ColumnsNotFound(Vec<String>),
    /// These columns are declared not-null without a default and get no value.
    RequiredColumnsUncovered(Vec<String>),
    /// The key column of an update is not the target of any mapping rule.
    KeyNotMapped(String),
}

impl View for SchemaError {
    type V = SchemaFailure;

    open spec fn view(&self) -> SchemaFailure {
        match self {
            SchemaError::InvalidIdentifier(name) => SchemaFailure::InvalidIdentifier(name@),
            SchemaError::TableNotFound(name) => SchemaFailure::TableNotFound(name@),
            SchemaError::KeyColumnNotFound(name) => SchemaFailure::KeyColumnNotFound(name@),
            SchemaError::ColumnsNotFound(names) => SchemaFailure::ColumnsNotFound(texts(names@)),
            SchemaError::RequiredColumnsUncovered(names) => SchemaFailure::RequiredColumnsUncovered(
                texts(names@),
            ),
            SchemaError::KeyNotMapped(name) => SchemaFailure::KeyNotMapped(name@),
        }
    }
}

/// Whether `c` is an ASCII letter.
pub open spec fn is_letter(c: char) -> bool {
    ('a' <= c && c <= 'z') || ('A' <= c && c <= 'Z')
}

/// Whether `c` is an ASCII digit.
pub open spec fn is_digit(c: char) -> bool {
    '0' <= c && c <= '9'
}

/// Whether `name` is a plain identifier: a letter or underscore, followed by
/// letters, digits and underscores only.
pub open spec fn is_identifier(name: Seq<char>) -> bool {
    &&& name.len() > 0
    &&& (is_letter(name[0]) || name[0] == '_')
    &&& forall|i: int|
        0 <= i < name.len() ==> is_letter(#[trigger] name[i]) || is_digit(name[i]) || name[i]
            == '_'
}

fn letter(c: char) -> (r: bool)
    ensures
        r == is_letter(c),
{
    ('a' <= c && c <= 'z') || ('A' <= c && c <= 'Z')
}

/// Checks that `name` is a plain identifier, fit to stand in statement text.
pub fn check_identifier(name: &str) -> (ok: bool)
    ensures
        ok == is_identifier(name@),
{
    let chars = chars_of(name);
    if chars.len() == 0 {
        return false;
    }
    if !(letter(chars[0]) || chars[0] == '_') {
        return false;
    }
    let mut i: usize = 0;
    while i < chars.len()
        invariant
            i <= chars.len(),
            chars@ == name@,
            forall|k: int|
                0 <= k < i ==> is_letter(#[trigger] chars@[k]) || is_digit(chars@[k]) || chars@[k]
                    == '_',
        decreases chars.len() - i,
    {
        let c = chars[i];
        if !(letter(c) || ('0' <= c && c <= '9') || c == '_') {
            return false;
        }
        i += 1;
    }
    true
}

/// The statement that lists the tables of a database, the database's own
/// tables left out.
pub open spec fn table_list_statement() -> Seq<char> {
    "SELECT name FROM sqlite_master WHERE type='table' AND name NOT LIKE 'sqlite_%'"@
}

/// Builds the statement that lists the tables of a database.
pub fn table_list_query() -> (out: String)
    ensures
        out@ == table_list_statement(),
{
    "SELECT name FROM sqlite_master WHERE type='table' AND name NOT LIKE 'sqlite_%'".to_owned()
}

/// The statement that reads the columns of `table`, in column order.
pub open spec fn table_info_statement(table: Seq<char>) -> Seq<char> {
    "SELECT * FROM pragma_table_info('"@ + table + "') ORDER BY cid"@
}

/// The statement that lists the indexes of `table` with their defining text.
pub open spec fn index_list_statement(table: Seq<char>) -> Seq<char> {
    "SELECT name, sql FROM sqlite_master WHERE type='index' AND tbl_name='"@ + table + "'"@
}

/// The statement that reads the member columns of `index`. The name stands
/// in a quoted literal, every quote in it doubled.
pub open spec fn index_info_statement(index: Seq<char>) -> Seq<char> {
    "SELECT * FROM pragma_index_info('"@ + replace_all(index, "'"@, "''"@) + "')"@
}

/// What building a statement returned, as a model.
pub open spec fn statement_model(out: Result<String, SchemaError>) -> Result<
    Seq<char>,
    SchemaFailure,
> {
    match out {
        Ok(text) => Ok(text@),
        Err(error) => Err(error@),
    }
}

fn around(before: &str, name: &str, after: &str) -> (out: String)
    ensures
        out@ == before@ + name@ + after@,
{
    let mut out = String::new();
    out.append(before);
    out.append(name);
    out.append(after);
    assert(out@ =~= before@ + name@ + after@);
    out
}

/// Builds the statement that reads the columns of `table`; a name that is not
/// a plain identifier is refused.
pub fn table_info_query(table: &str) -> (out: Result<String, SchemaError>)
    ensures
        statement_model(out) == if is_identifier(table@) {
            Ok::<Seq<char>, SchemaFailure>(table_info_statement(table@))
        } else {
            Err::<Seq<char>, SchemaFailure>(SchemaFailure::InvalidIdentifier(table@))
        },
{
    if check_identifier(table) {
        Ok(around("SELECT * FROM pragma_table_info('", table, "') ORDER BY cid"))
    } else {
        Err(SchemaError::InvalidIdentifier(table.to_owned()))
    }
}

/// Builds the statement that lists the indexes of `table`; a name that is not
/// a plain identifier is refused.
pub fn index_list_query(table: &str) -> (out: Result<String, SchemaError>)
    ensures
        statement_model(out) == if is_identifier(table@) {
            Ok::<Seq<char>, SchemaFailure>(index_list_statement(table@))
        } else {
            Err::<Seq<char>, SchemaFailure>(SchemaFailure::InvalidIdentifier(table@))
        },
{
    if check_identifier(table) {
        Ok(
            around(
                "SELECT name, sql FROM sqlite_master WHERE type='index' AND tbl_name='",
                table,
                "'",
            ),
        )
    } else {
        Err(SchemaError::InvalidIdentifier(table.to_owned()))
    }
}

/// Builds the statement that reads the member columns of `index`, a name
/// taken from the database's own catalog.
pub fn index_info_query(index: &str) -> (out: String)
    ensures
        out@ == index_info_statement(index@),
{
    let escaped = replace_text(index, "'", "''");
    around("SELECT * FROM pragma_index_info('", escaped.as_str(), "')")
}

/// The model of one row of a table's column listing.
pub struct ColumnRowModel {
    pub name: Seq<char>,
    pub data_type: Seq<char>,
    pub not_null: int,
    pub default_value: Option<Seq<char>>,
    pub primary_key: int,
}

/// One row of a table's column listing, as the database reports it.
#[derive(Debug, PartialEq, Eq)]
pub struct ColumnRow {
    pub name: String,
    pub data_type: String,
    pub not_null: i32,
    pub default_value: Option<String>,
    pub primary_key: i32,
}

impl View for ColumnRow {
    type V = ColumnRowModel;

    open spec fn view(&self) -> ColumnRowModel {
        ColumnRowModel {
            name: self.name@,
            data_type: self.data_type@,
            not_null: self.not_null as int,
            default_value: optional_text(self.default_value),
            primary_key: self.primary_key as int,
        }
    }
}

/// The models of a run of listing rows, in order.
pub open spec fn column_row_models(rows: Seq<ColumnRow>) -> Seq<ColumnRowModel> {
    Seq::new(rows.len(), |i: int| rows[i]@)
}

/// The column that a listing row describes: it is not-null when the database
/// reports 1, and a primary-key column when the database reports its rank in
/// the key, which is 1 or more.
pub open spec fn column_of(row: ColumnRowModel) -> ColumnModel {
    ColumnModel {
        name: row.name,
        data_type: row.data_type,
        not_null: row.not_null == 1,
        primary_key: row.primary_key >= 1,
        default_value: row.default_value,
    }
}

/// The columns that a listing describes, in order.
pub open spec fn columns_of(rows: Seq<ColumnRowModel>) -> Seq<ColumnModel> {
    Seq::new(rows.len(), |i: int| column_of(rows[i]))
}

/// What reading a table's columns returned, as a model.
pub open spec fn columns_outcome(out: Result<Vec<ColumnInfo>, SchemaError>) -> Result<
    Seq<ColumnModel>,
    SchemaFailure,
> {
    match out {
        Ok(columns) => Ok(column_models(columns@)),
        Err(error) => Err(error@),
    }
}

/// Turns the column listing of `table_name` into column metadata; a table
/// without columns does not exist.
pub fn get_table_columns(rows: &Vec<ColumnRow>, table_name: &str) -> (out: Result<
    Vec<ColumnInfo>,
    SchemaError,
>)
    ensures
        columns_outcome(out) == if rows@.len() == 0 {
            Err::<Seq<ColumnModel>, SchemaFailure>(SchemaFailure::TableNotFound(table_name@))
        } else {
            Ok::<Seq<ColumnModel>, SchemaFailure>(columns_of(column_row_models(rows@)))
        },
{
    if rows.len() == 0 {
        return Err(SchemaError::TableNotFound(table_name.to_owned()));
    }
    let mut columns: Vec<ColumnInfo> = Vec::new();
    let mut i: usize = 0;
    while i < rows.len()
        invariant
            i <= rows.len(),
            columns@.len() == i,
            forall|k: int| 0 <= k < i ==> columns@[k]@ == column_of(rows@[k]@),
        decreases rows.len() - i,
    {
        let row = &rows[i];
        columns.push(
            ColumnInfo {
                name: row.name.clone(),
                data_type: row.data_type.clone(),
                not_null: row.not_null == 1,
                primary_key: row.primary_key >= 1,
                default_value: clone_optional_text(&row.default_value),
            },
        );
        i += 1;
    }
    assert(column_models(columns@) =~= columns_of(column_row_models(rows@)));
    Ok(columns)
}

/// The model of one member column of an index.
pub struct IndexColumnModel {
    pub position: int,
    pub name: Seq<char>,
}

/// One member column of an index, with its rank inside the index.
#[derive(Debug, PartialEq, Eq)]
pub struct IndexColumn {
    pub position: i32,
    pub name: String,
}

impl View for IndexColumn {
    type V = IndexColumnModel;

    open spec fn view(&self) -> IndexColumnModel {
        IndexColumnModel { position: self.position as int, name: self.name@ }
    }
}

/// The models of a run of member columns, in order.
pub open spec fn index_column_models(columns: Seq<IndexColumn>) -> Seq<IndexColumnModel> {
    Seq::new(columns.len(), |i: int| columns[i]@)
}

/// The model of one index of a table.
pub struct IndexModel {
    pub name: Seq<char>,
    pub sql: Option<Seq<char>>,
    pub columns: Seq<IndexColumnModel>,
}

/// One index of a table: its name, its defining statement where the database
/// holds one, and its member columns as read.
#[derive(Debug, PartialEq, Eq)]
pub struct IndexRow {
    pub name: String,
    pub sql: Option<String>,
    pub columns: Vec<IndexColumn>,
}

impl View for IndexRow {
    type V = IndexModel;

    open spec fn view(&self) -> IndexModel {
        IndexModel {
            name: self.name@,
            sql: optional_text(self.sql),
            columns: index_column_models(self.columns@),
        }
    }
}

/// The models of a run of indexes, in order.
pub open spec fn index_models(indexes: Seq<IndexRow>) -> Seq<IndexModel> {
    Seq::new(indexes.len(), |i: int| indexes[i]@)
}

/// Whether `c` is a blank: a space, a tab or a line break.
pub open spec fn is_blank(c: char) -> bool {
    c == ' ' || c == '\t' || c == '\n' || c == '\r'
}

/// The first position at or after `from` that holds no blank; the end of the
/// text where only blanks follow.
pub open spec fn past_blanks(text: Seq<char>, from: int) -> int
    decreases text.len() - from,
{
    if 0 <= from < text.len() && is_blank(text[from]) {
        past_blanks(text, from + 1)
    } else {
        from
    }
}

/// Whether `word` stands at position `at` as a whole word: what follows it
/// is the end of the text or a character that is no letter, digit or
/// underscore.
pub open spec fn word_at(text: Seq<char>, word: Seq<char>, at: int) -> bool {
    &&& occurs_at(text, word, at)
    &&& (at + word.len() == text.len() || !(is_letter(text[at + word.len()]) || is_digit(
        text[at + word.len()],
    ) || text[at + word.len()] == '_'))
}

/// Whether a statement in upper case begins a unique index: after leading
/// blanks its first three words are `CREATE`, `UNIQUE` and `INDEX`.
pub open spec fn begins_unique_index(upper: Seq<char>) -> bool {
    let first = past_blanks(upper, 0);
    let second = past_blanks(upper, first + "CREATE"@.len());
    let third = past_blanks(upper, second + "UNIQUE"@.len());
    &&& word_at(upper, "CREATE"@, first)
    &&& word_at(upper, "UNIQUE"@, second)
    &&& word_at(upper, "INDEX"@, third)
}

/// Whether an index's defining statement declares it unique: in upper case
/// it begins with the words `CREATE UNIQUE INDEX`. An index without a
/// statement is not counted.
pub open spec fn declares_unique(sql: Option<Seq<char>>) -> bool {
    match sql {
        Some(text) => begins_unique_index(uppercase_of(text)),
        None => false,
    }
}

fn skip_blanks(chars: &Vec<char>, from: usize) -> (at: usize)
    requires
        from <= chars.len(),
    ensures
        at == past_blanks(chars@, from as int),
        from <= at <= chars.len(),
{
    let mut at: usize = from;
    while at < chars.len() && (chars[at] == ' ' || chars[at] == '\t' || chars[at] == '\n'
        || chars[at] == '\r')
        invariant
            from <= at <= chars.len(),
            past_blanks(chars@, from as int) == past_blanks(chars@, at as int),
        decreases chars.len() - at,
    {
        at += 1;
    }
    at
}

fn word_stands_at(chars: &Vec<char>, word: &Vec<char>, at: usize) -> (found: bool)
    requires
        at <= chars.len(),
    ensures
        found == word_at(chars@, word@, at as int),
        found ==> at + word@.len() <= chars@.len(),
{
    if word.len() > chars.len() - at {
        return false;
    }
    if !matches_at(chars, word, at) {
        return false;
    }
    let end: usize = at + word.len();
    if end == chars.len() {
        return true;
    }
    let c = chars[end];
    !(letter(c) || ('0' <= c && c <= '9') || c == '_')
}

/// Whether a statement in upper case begins a unique index.
pub fn reads_as_unique_index(upper_sql: &str) -> (unique: bool)
    ensures
        unique == begins_unique_index(upper_sql@),
{
    let chars = chars_of(upper_sql);
    let create = chars_of("CREATE");
    let unique = chars_of("UNIQUE");
    let index = chars_of("INDEX");
    let first = skip_blanks(&chars, 0);
    if !word_stands_at(&chars, &create, first) {
        return false;
    }
    let second = skip_blanks(&chars, first + create.len());
    if !word_stands_at(&chars, &unique, second) {
        return false;
    }
    let third = skip_blanks(&chars, second + unique.len());
    word_stands_at(&chars, &index, third)
}

/// Whether an index's defining statement declares it unique.
pub fn is_unique_index(sql: &Option<String>) -> (unique: bool)
    ensures
        unique == declares_unique(optional_text(*sql)),
{
    match sql {
        Some(text) => {
            let upper = to_uppercase(text.as_str());
            reads_as_unique_index(upper.as_str())
        },
        None => false,
    }
}

/// `sorted` with `column` put behind the last member whose rank is not greater.
pub open spec fn placed(sorted: Seq<IndexColumnModel>, column: IndexColumnModel) -> Seq<
    IndexColumnModel,
>
    decreases sorted.len(),
{
    if sorted.len() == 0 {
        seq![column]
    } else if sorted.last().position <= column.position {
        sorted.push(column)
    } else {
        placed(sorted.drop_last(), column).push(sorted.last())
    }
}

/// The member columns by ascending rank, members of equal rank in the order read.
pub open spec fn by_position(columns: Seq<IndexColumnModel>) -> Seq<IndexColumnModel>
    decreases columns.len(),
{
    if columns.len() == 0 {
        Seq::empty()
    } else {
        placed(by_position(columns.drop_last()), columns.last())
    }
}

/// The names of a run of member columns, in order.
pub open spec fn member_names(columns: Seq<IndexColumnModel>) -> Seq<Seq<char>> {
    Seq::new(columns.len(), |i: int| columns[i].name)
}

/// Placing a member puts it at the split point that keeps every later member
/// of greater rank and the member before it of no greater rank.
pub proof fn lemma_placed_at(sorted: Seq<IndexColumnModel>, column: IndexColumnModel, at: int)
    requires
        0 <= at <= sorted.len(),
        forall|k: int| at <= k < sorted.len() ==> sorted[k].position > column.position,
        at > 0 ==> sorted[at - 1].position <= column.position,
    ensures
        placed(sorted, column) == sorted.take(at).push(column) + sorted.skip(at),
    decreases sorted.len(),
{
    if sorted.len() == 0 {
        assert(sorted.take(at).push(column) + sorted.skip(at) =~= seq![column]);
    } else if at == sorted.len() {
        assert(sorted.take(at).push(column) + sorted.skip(at) =~= sorted.push(column));
    } else {
        let shorter = sorted.drop_last();
        assert(sorted.last() == sorted[sorted.len() - 1]);
        assert forall|k: int| at <= k < shorter.len() implies shorter[k].position
            > column.position by {
            assert(shorter[k] == sorted[k]);
        }
        if at > 0 {
            assert(shorter[at - 1] == sorted[at - 1]);
        }
        lemma_placed_at(shorter, column, at);
        assert(shorter.take(at) =~= sorted.take(at));
        assert((shorter.take(at).push(column) + shorter.skip(at)).push(sorted.last())
            =~= sorted.take(at).push(column) + sorted.skip(at));
    }
}

/// Sorts the member columns of an index by rank, keeping the order read among
/// equal ranks.
pub fn order_by_position(columns: &Vec<IndexColumn>) -> (sorted: Vec<IndexColumn>)
    ensures
        index_column_models(sorted@) == by_position(index_column_models(columns@)),
{
    let ghost all = index_column_models(columns@);
    let mut sorted: Vec<IndexColumn> = Vec::new();
    let mut i: usize = 0;
    proof {
        assert(all.take(0) =~= Seq::<IndexColumnModel>::empty());
        assert(index_column_models(sorted@) =~= Seq::<IndexColumnModel>::empty());
    }
    while i < columns.len()
        invariant
            i <= columns.len(),
            all == index_column_models(columns@),
            sorted@.len() == i,
            index_column_models(sorted@) == by_position(all.take(i as int)),
        decreases columns.len() - i,
    {
        let position = columns[i].position;
        let mut at: usize = sorted.len();
        while at > 0 && sorted[at - 1].position > position
            invariant
                at <= sorted.len(),
                forall|k: int| at <= k < sorted@.len() ==> sorted@[k].position > position,
            decreases at,
        {
            at -= 1;
        }
        let ghost before = index_column_models(sorted@);
        let ghost prior = sorted@;
        let entry = IndexColumn { position, name: columns[i].name.clone() };
        sorted.insert(at, entry);
        proof {
            let upto = all.take(i + 1);
            assert(upto.drop_last() =~= all.take(i as int));
            assert(upto.last() == columns@[i as int]@);
            assert(entry@ == columns@[i as int]@);
            assert forall|k: int| at <= k < before.len() implies before[k].position
                > entry@.position by {
                assert(before[k] == prior[k]@);
            }
            lemma_placed_at(before, entry@, at as int);
            assert(index_column_models(sorted@) =~= before.take(at as int).push(entry@)
                + before.skip(at as int));
        }
        i += 1;
    }
    proof {
        assert(all.take(i as int) =~= all);
    }
    sorted
}

/// The names of the member columns of an index, by ascending rank.
pub open spec fn ordered_names(columns: Seq<IndexColumnModel>) -> Seq<Seq<char>> {
    member_names(by_position(columns))
}

/// The names of an index's member columns in index order.
pub fn index_column_names(columns: &Vec<IndexColumn>) -> (names: Vec<String>)
    ensures
        texts(names@) == ordered_names(index_column_models(columns@)),
{
    let sorted = order_by_position(columns);
    let mut names: Vec<String> = Vec::new();
    let mut i: usize = 0;
    while i < sorted.len()
        invariant
            i <= sorted.len(),
            names@.len() == i,
            forall|k: int| 0 <= k < i ==> names@[k]@ == sorted@[k].name@,
        decreases sorted.len() - i,
    {
        names.push(sorted[i].name.clone());
        i += 1;
    }
    assert(texts(names@) =~= member_names(index_column_models(sorted@)));
    names
}

/// The columns that stand in some unique index, each once, in the order first met.
pub open spec fn unique_columns_of(indexes: Seq<IndexModel>) -> Seq<Seq<char>>
    decreases indexes.len(),
{
    if indexes.len() == 0 {
        Seq::empty()
    } else {
        let before = unique_columns_of(indexes.drop_last());
        if declares_unique(indexes.last().sql) {
            with_names(before, ordered_names(indexes.last().columns))
        } else {
            before
        }
    }
}

/// Collects the columns that stand in some unique index of a table.
pub fn get_unique_columns(indexes: &Vec<IndexRow>) -> (names: Vec<String>)
    ensures
        texts(names@) == unique_columns_of(index_models(indexes@)),
{
    let ghost all = index_models(indexes@);
    let mut names: Vec<String> = Vec::new();
    let mut i: usize = 0;
    proof {
        assert(all.take(0) =~= Seq::<IndexModel>::empty());
        assert(texts(names@) =~= Seq::<Seq<char>>::empty());
    }
    while i < indexes.len()
        invariant
            i <= indexes.len(),
            all == index_models(indexes@),
            texts(names@) == unique_columns_of(all.take(i as int)),
        decreases indexes.len() - i,
    {
        proof {
            let upto = all.take(i + 1);
            assert(upto.drop_last() =~= all.take(i as int));
            assert(upto.last() == indexes@[i as int]@);
        }
        if is_unique_index(&indexes[i].sql) {
            let members = index_column_names(&indexes[i].columns);
            add_names(&mut names, &members);
        }
        i += 1;
    }
    proof {
        assert(all.take(i as int) =~= all);
    }
    names
}

/// The model of a table's description.
pub struct TableModel {
    pub columns: Seq<ColumnModel>,
    pub unique_constraints: Seq<Seq<Seq<char>>>,
}

/// The description of a table: its columns and, for each unique index, the
/// names of its member columns in index order.
#[derive(Debug, PartialEq, Eq)]
pub struct TableInfo {
    pub columns: Vec<ColumnInfo>,
    pub unique_constraints: Vec<Vec<String>>,
}

/// The views of a run of name lists, in order.
pub open spec fn name_lists(lists: Seq<Vec<String>>) -> Seq<Seq<Seq<char>>> {
    Seq::new(lists.len(), |i: int| texts(lists[i]@))
}

impl View for TableInfo {
    type V = TableModel;

    open spec fn view(&self) -> TableModel {
        TableModel {
            columns: column_models(self.columns@),
            unique_constraints: name_lists(self.unique_constraints@),
        }
    }
}

/// The member columns of each unique index, in the order of the indexes.
pub open spec fn unique_constraints_of(indexes: Seq<IndexModel>) -> Seq<Seq<Seq<char>>>
    decreases indexes.len(),
{
    if indexes.len() == 0 {
        Seq::empty()
    } else {
        let before = unique_constraints_of(indexes.drop_last());
        if declares_unique(indexes.last().sql) {
            before.push(ordered_names(indexes.last().columns))
        } else {
            before
        }
    }
}

/// What describing a table returned, as a model.
pub open spec fn table_outcome(out: Result<TableInfo, SchemaError>) -> Result<
    TableModel,
    SchemaFailure,
> {
    match out {
        Ok(table) => Ok(table@),
        Err(error) => Err(error@),
    }
}

/// Describes a table from its column listing and its indexes; a table
/// without columns does not exist.
pub fn analyze_table(rows: &Vec<ColumnRow>, indexes: &Vec<IndexRow>, table_name: &str) -> (out:
    Result<TableInfo, SchemaError>)
    ensures
        table_outcome(out) == if rows@.len() == 0 {
            Err::<TableModel, SchemaFailure>(SchemaFailure::TableNotFound(table_name@))
        } else {
            Ok::<TableModel, SchemaFailure>(
                TableModel {
                    columns: columns_of(column_row_models(rows@)),
                    unique_constraints: unique_constraints_of(index_models(indexes@)),
                },
            )
        },
{
    let columns = match get_table_columns(rows, table_name) {
        Ok(columns) => columns,
        Err(error) => {
            return Err(error);
        },
    };
    let ghost all = index_models(indexes@);
    let mut unique_constraints: Vec<Vec<String>> = Vec::new();
    let mut i: usize = 0;
    proof {
        assert(all.take(0) =~= Seq::<IndexModel>::empty());
        assert(name_lists(unique_constraints@) =~= Seq::<Seq<Seq<char>>>::empty());
    }
    while i < indexes.len()
        invariant
            i <= indexes.len(),
            all == index_models(indexes@),
            name_lists(unique_constraints@) == unique_constraints_of(all.take(i as int)),
        decreases indexes.len() - i,
    {
        proof {
            let upto = all.take(i + 1);
            assert(upto.drop_last() =~= all.take(i as int));
            assert(upto.last() == indexes@[i as int]@);
        }
        if is_unique_index(&indexes[i].sql) {
            let members = index_column_names(&indexes[i].columns);
            let ghost before = name_lists(unique_constraints@);
            unique_constraints.push(members);
            assert(name_lists(unique_constraints@) =~= before.push(texts(members@)));
        }
        i += 1;
    }
    proof {
        assert(all.take(i as int) =~= all);
    }
    Ok(TableInfo { columns, unique_constraints })
}

} // verus!
