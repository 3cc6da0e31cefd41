//! The batch updater: the decisions of a reconciliation, record by record.

use vstd::prelude::*;
use vstd::string::StringExecFns;
use crate::failure::BatchError;
use crate::failure::BatchFailure;
use crate::insert::find_invalid;
use crate::insert::first_invalid;
use crate::insert::rule_columns;
use crate::path::apply_mapping;
use crate::path::extract_root_objects;
use crate::path::mapped;
use crate::path::root_objects;
use crate::path::rule_models;
use crate::path::MappingRule;
use crate::path::RuleModel;
use crate::progress::advance_message;
use crate::progress::advance_status;
use crate::progress::report_due;
use crate::progress::should_report;
use crate::progress::snapshot;
use crate::progress::update_message;
use crate::progress::update_summary;
use crate::progress::ImportProgress;
use crate::progress::ProgressModel;
use crate::render::render;
use crate::render::rendered;
use crate::row::value_in;
use crate::row::Row;
use crate::schema::check_identifier;
use crate::schema::column_names;
use crate::schema::column_row_models;
use crate::schema::columns_of;
use crate::schema::is_identifier;
use crate::schema::table_info_query;
use crate::schema::table_info_statement;
use crate::schema::ColumnModel;
use crate::schema::ColumnRow;
use crate::schema::SchemaError;
use crate::schema::SchemaFailure;
use crate::storage::coerce;
use crate::storage::parameters;
use crate::storage::parameters_of;
use crate::storage::sql_models;
use crate::storage::stored;
use crate::storage::SqlValue;
use crate::synth::Values;
use crate::text::has_text;
use crate::text::join_texts;
use crate::text::joined;
use crate::text::texts;
use crate::value::models;
use crate::value::Json;
use crate::value::JsonValue;

verus! {

/// What an update is asked to do.
#[derive(Debug, PartialEq, Eq)]
pub struct UpdateConfig {
    pub json_path: String,
    pub db_path: String,
    pub json_root: String,
    pub table_name: String,
    pub key_column: String,
    pub update_columns: Vec<String>,
    pub mapping: Vec<MappingRule>,
    pub dry_run: bool,
}

/// The phase of an update.
#[derive(Debug, Clone, Copy, PartialEq, Eq)]
pub enum UpdatePhase {
    Preparing,
    AnalyzingSchema,
    OpeningTransaction,
    /// The current record is being looked up by its key.
    Checking,
    /// The current record's row exists and is being updated.
    Updating,
    Committing,
    Done,
    Failed,
}

/// Whether some mapping rule feeds the key column.
pub open spec fn key_mapped(rules: Seq<RuleModel>, key: Seq<char>) -> bool {
    rule_columns(rules).contains(key)
}

/// Decides whether some mapping rule feeds the key column.
pub fn is_key_mapped(mapping: &Vec<MappingRule>, key_column: &str) -> (found: bool)
    ensures
        found == key_mapped(rule_models(mapping@), key_column@),
{
    let ghost all = rule_columns(rule_models(mapping@));
    let mut i: usize = 0;
    while i < mapping.len()
        invariant
            i <= mapping.len(),
            all == rule_columns(rule_models(mapping@)),
            forall|k: int| 0 <= k < i ==> all[k] != key_column@,
        decreases mapping.len() - i,
    {
        if mapping[i].column.as_str().eq(key_column) {
            assert(all[i as int] == key_column@);
            return true;
        }
        i += 1;
    }
    false
}

/// The names among `names` that are not among `allowed`, in order.
pub open spec fn absent(names: Seq<Seq<char>>, allowed: Seq<Seq<char>>) -> Seq<Seq<char>>
    decreases names.len(),
{
    if names.len() == 0 {
        Seq::empty()
    } else {
        let before = absent(names.drop_last(), allowed);
        if allowed.contains(names.last()) {
            before
        } else {
            before.push(names.last())
        }
    }
}

/// Lists the names that are not among `allowed`.
pub fn missing_columns(names: &Vec<String>, allowed: &Vec<String>) -> (missing: Vec<String>)
    ensures
        texts(missing@) == absent(texts(names@), texts(allowed@)),
{
    let ghost all = texts(names@);
    let mut missing: Vec<String> = Vec::new();
    let mut i: usize = 0;
    proof {
        assert(all.take(0) =~= Seq::<Seq<char>>::empty());
        assert(texts(missing@) =~= Seq::<Seq<char>>::empty());
    }
    while i < names.len()
        invariant
            i <= names.len(),
            all == texts(names@),
            texts(missing@) == absent(all.take(i as int), texts(allowed@)),
        decreases names.len() - i,
    {
        proof {
            let upto = all.take(i + 1);
            assert(upto.drop_last() =~= all.take(i as int));
            assert(upto.last() == names@[i as int]@);
        }
        if !has_text(allowed, names[i].as_str()) {
            let ghost before = texts(missing@);
            missing.push(names[i].clone());
            assert(texts(missing@) =~= before.push(names@[i as int]@));
        }
        i += 1;
    }
    proof {
        assert(all.take(i as int) =~= all);
    }
    missing
}

/// The columns among `columns` that have a value in the record, in order.
pub open spec fn present(row: Values, columns: Seq<Seq<char>>) -> Seq<Seq<char>>
    decreases columns.len(),
{
    if columns.len() == 0 {
        Seq::empty()
    } else {
        let before = present(row, columns.drop_last());
        if value_in(row, columns.last()) is Some {
            before.push(columns.last())
        } else {
            before
        }
    }
}

/// Lists the columns that have a value in the record.
pub fn present_columns(row: &Row, columns: &Vec<String>) -> (found: Vec<String>)
    ensures
        texts(found@) == present(row@, texts(columns@)),
{
    let ghost all = texts(columns@);
    let mut found: Vec<String> = Vec::new();
    let mut i: usize = 0;
    proof {
        assert(all.take(0) =~= Seq::<Seq<char>>::empty());
        assert(texts(found@) =~= Seq::<Seq<char>>::empty());
    }
    while i < columns.len()
        invariant
            i <= columns.len(),
            all == texts(columns@),
            texts(found@) == present(row@, all.take(i as int)),
        decreases columns.len() - i,
    {
        proof {
            let upto = all.take(i + 1);
            assert(upto.drop_last() =~= all.take(i as int));
            assert(upto.last() == columns@[i as int]@);
        }
        if row.value_of(columns[i].as_str()).is_some() {
            let ghost before = texts(found@);
            found.push(columns[i].clone());
            assert(texts(found@) =~= before.push(columns@[i as int]@));
        }
        i += 1;
    }
    proof {
        assert(all.take(i as int) =~= all);
    }
    found
}

/// The text by which a key value is looked up: a string as it is, any other
/// value in its compact JSON form.
pub open spec fn key_text(value: Json) -> Seq<char> {
    match value {
        Json::String(text) => text,
        _ => rendered(value),
    }
}

/// Builds the text by which a key value is looked up.
pub fn key_lookup_text(value: &JsonValue) -> (out: String)
    ensures
        out@ == key_text(value@),
{
    match value {
        JsonValue::String(text) => text.clone(),
        _ => render(value),
    }
}

/// The statement that counts the rows of `table` whose key column has a
/// given value.
pub open spec fn check_statement(table: Seq<char>, key: Seq<char>) -> Seq<char> {
    "SELECT COUNT(*) FROM "@ + table + " WHERE "@ + key + " = ?"@
}

/// Builds the statement that counts the rows with a given key.
pub fn build_check_statement(table: &str, key_column: &str) -> (out: String)
    ensures
        out@ == check_statement(table@, key_column@),
{
    let mut out = String::new();
    out.append("SELECT COUNT(*) FROM ");
    out.append(table);
    out.append(" WHERE ");
    out.append(key_column);
    out.append(" = ?");
    assert(out@ =~= check_statement(table@, key_column@));
    out
}

/// The assignments of an update: each column set to a parameter.
pub open spec fn assignments(columns: Seq<Seq<char>>) -> Seq<Seq<char>> {
    Seq::new(columns.len(), |i: int| columns[i] + " = ?"@)
}

/// The statement that sets the given columns of the rows of `table` whose
/// key column has a given value.
pub open spec fn update_statement(table: Seq<char>, columns: Seq<Seq<char>>, key: Seq<char>) -> Seq<
    char,
> {
    "UPDATE "@ + table + " SET "@ + joined(assignments(columns), ", "@) + " WHERE "@ + key
        + " = ?"@
}

/// Builds the statement that sets the given columns of the rows with a given key.
pub fn build_update_statement(table: &str, columns: &Vec<String>, key_column: &str) -> (out: String)
    ensures
        out@ == update_statement(table@, texts(columns@), key_column@),
{
    let mut clauses: Vec<String> = Vec::new();
    let mut i: usize = 0;
    while i < columns.len()
        invariant
            i <= columns.len(),
            clauses@.len() == i,
            forall|k: int| 0 <= k < i ==> clauses@[k]@ == columns@[k]@ + " = ?"@,
        decreases columns.len() - i,
    {
        let mut clause = columns[i].clone();
        clause.append(" = ?");
        clauses.push(clause);
        i += 1;
    }
    assert(texts(clauses@) =~= assignments(texts(columns@)));
    let set = join_texts(&clauses, ", ");
    let mut out = String::new();
    out.append("UPDATE ");
    out.append(table);
    out.append(" SET ");
    out.append(set.as_str());
    out.append(" WHERE ");
    out.append(key_column);
    out.append(" = ?");
    assert(out@ =~= update_statement(table@, texts(columns@), key_column@));
    out
}

/// What the database reported back to an update.
#[derive(Debug, PartialEq, Eq)]
pub enum UpdateEvent {
    /// The database is open.
    Connected,
    /// The database could not be opened.
    ConnectionFailed(String),
    /// The table's column listing was read.
    SchemaRead { columns: Vec<ColumnRow> },
    /// The table's metadata could not be read.
    SchemaFailed(String),
    /// The transaction is open.
    TransactionOpened,
    /// The transaction could not be opened.
    TransactionFailed(String),
    /// The current record was passed over, as asked.
    Skipped,
    /// The lookup ran: so many rows have the key of the current record.
    Counted(i64),
    /// The lookup failed.
    CheckFailed(String),
    /// The update ran: so many rows were changed.
    Updated(u64),
    /// The update failed.
    UpdateFailed(String),
    /// The transaction is committed.
    Committed,
    /// The transaction could not be committed.
    CommitFailed(String),
}

/// What an update asks to be done next.
#[derive(Debug, PartialEq, Eq)]
pub enum UpdateAction {
    /// Open the database.
    Connect,
    /// Read the table's column listing with this statement.
    ReadSchema { columns_statement: String },
    /// Open a transaction.
    OpenTransaction,
    /// Nothing is to be run for the current record: it has no key value.
    Skip,
    /// Count the rows that have the key of the current record.
    CheckExists { statement: String, key: String },
    /// Run this statement with these values.
    Update { statement: String, parameters: Vec<SqlValue> },
    /// Commit the transaction.
    Commit,
    /// The update is over. A final progress record is the last one to report.
    Finish(Result<ImportProgress, BatchError>),
}

/// One step of an update: a snapshot to report, if one is due, and what to
/// do next.
#[derive(Debug, PartialEq, Eq)]
pub struct UpdateStep {
    pub report: Option<ImportProgress>,
    pub action: UpdateAction,
}

/// The model of an update in progress.
pub struct UpdateModel {
    pub table: Seq<char>,
    pub key: Seq<char>,
    pub update_columns: Seq<Seq<char>>,
    pub rules: Seq<RuleModel>,
    pub records: Seq<Json>,
    pub phase: UpdatePhase,
    pub total: nat,
    pub processed: nat,
    pub succeeded: nat,
    pub failed: nat,
    pub not_found: nat,
}

#[derive(Clone, Copy)]
struct Tally {
    phase: UpdatePhase,
    total: u32,
    processed: u32,
    succeeded: u32,
    failed: u32,
    not_found: u32,
}

/// An update in progress: the records to reconcile, the key and the columns
/// to set, and the counters.
pub struct UpdateSession {
    table_name: String,
    key_column: String,
    update_columns: Vec<String>,
    mapping: Vec<MappingRule>,
    records: Vec<JsonValue>,
    tally: Tally,
}

impl View for UpdateSession {
    type V = UpdateModel;

    closed spec fn view(&self) -> UpdateModel {
        UpdateModel {
            table: self.table_name@,
            key: self.key_column@,
            update_columns: texts(self.update_columns@),
            rules: rule_models(self.mapping@),
            records: models(self.records@),
            phase: self.tally.phase,
            total: self.tally.total as nat,
            processed: self.tally.processed as nat,
            succeeded: self.tally.succeeded as nat,
            failed: self.tally.failed as nat,
            not_found: self.tally.not_found as nat,
        }
    }
}

/// Whether an update's counters agree with its records and its phase: every
/// processed record either succeeded or failed, no more were processed than
/// there are, none before the transaction is open, and all of them once the
/// transaction is to be committed. Records not found are among the failed.
pub open spec fn sound(update: UpdateModel) -> bool {
    &&& update.total == update.records.len()
    &&& update.processed == update.succeeded + update.failed
    &&& update.processed <= update.total
    &&& update.not_found <= update.failed
    &&& update.phase == UpdatePhase::Preparing || update.phase == UpdatePhase::AnalyzingSchema
        || update.phase == UpdatePhase::OpeningTransaction ==> update.processed == 0
    &&& update.phase == UpdatePhase::Checking || update.phase == UpdatePhase::Updating
        ==> update.processed < update.total
    &&& update.phase == UpdatePhase::Committing ==> update.processed == update.total
}

/// The snapshot of an update with the given message.
pub open spec fn snapshot_of(update: UpdateModel, status: Seq<char>) -> ProgressModel {
    ProgressModel {
        total: update.total,
        processed: update.processed,
        succeeded: update.succeeded,
        failed: update.failed,
        status,
    }
}

/// Whether a step reports nothing and ends the update with the given failure.
pub open spec fn ends_with(step: UpdateStep, failure: BatchFailure) -> bool {
    &&& step.report is None
    &&& step.action matches UpdateAction::Finish(Err(error))
    &&& error@ == failure
}

/// Whether a step reports a snapshot with the given message.
pub open spec fn reports(step: UpdateStep, update: UpdateModel, status: Seq<char>) -> bool {
    step.report matches Some(progress) && progress@ == snapshot_of(update, status)
}

/// The column values that the mapping gives the current record.
pub open spec fn current_row(update: UpdateModel) -> Values {
    mapped(update.records[update.processed as int], update.rules)
}

/// The key value of the current record, if it has one.
pub open spec fn current_key(update: UpdateModel) -> Option<Json> {
    value_in(current_row(update), update.key)
}

/// Whether the action is the one that opens the next record, or the commit
/// once no record is left: a record without a key value is passed over, any
/// other is looked up by its key.
pub open spec fn proceeds(action: UpdateAction, update: UpdateModel) -> bool {
    if update.processed < update.total {
        &&& update.phase == UpdatePhase::Checking
        &&& match current_key(update) {
            None => action == UpdateAction::Skip,
            Some(key) => {
                &&& action matches UpdateAction::CheckExists { statement, key: text }
                &&& statement@ == check_statement(update.table, update.key)
                &&& text@ == key_text(key)
            },
        }
    } else {
        &&& update.phase == UpdatePhase::Committing
        &&& action == UpdateAction::Commit
    }
}

/// The phase after a record is counted.
pub open spec fn phase_after(processed: nat, total: nat) -> UpdatePhase {
    if processed == total {
        UpdatePhase::Committing
    } else {
        UpdatePhase::Checking
    }
}

/// The update after the current record is counted as succeeded.
pub open spec fn succeeded_one(pre: UpdateModel) -> UpdateModel {
    UpdateModel {
        phase: phase_after(pre.processed + 1, pre.total),
        processed: pre.processed + 1,
        succeeded: pre.succeeded + 1,
        ..pre
    }
}

/// The update after the current record is counted as failed.
pub open spec fn failed_one(pre: UpdateModel) -> UpdateModel {
    UpdateModel {
        phase: phase_after(pre.processed + 1, pre.total),
        processed: pre.processed + 1,
        failed: pre.failed + 1,
        ..pre
    }
}

/// The update after the current record is counted as not found.
pub open spec fn missed_one(pre: UpdateModel) -> UpdateModel {
    UpdateModel {
        phase: phase_after(pre.processed + 1, pre.total),
        processed: pre.processed + 1,
        failed: pre.failed + 1,
        not_found: pre.not_found + 1,
        ..pre
    }
}

/// Whether a step is the one that follows a counted record: a snapshot is
/// reported exactly when one is due, and the update proceeds.
pub open spec fn counted(step: UpdateStep, post: UpdateModel) -> bool {
    &&& if report_due(post.processed, post.total) {
        reports(step, post, advance_status(post.processed, post.total))
    } else {
        step.report is None
    }
    &&& proceeds(step.action, post)
}

/// What the table's column listing lets an update do: fail where the table,
/// the key column or a column to set is missing, or go on to open its
/// transaction.
pub open spec fn schema_step(
    pre: UpdateModel,
    columns: Seq<ColumnModel>,
    post: UpdateModel,
    step: UpdateStep,
) -> bool {
    let names = column_names(columns);
    let missing = absent(pre.update_columns, names);
    let failure = if columns.len() == 0 {
        Some(SchemaFailure::TableNotFound(pre.table))
    } else if !names.contains(pre.key) {
        Some(SchemaFailure::KeyColumnNotFound(pre.key))
    } else if missing.len() > 0 {
        Some(SchemaFailure::ColumnsNotFound(missing))
    } else if !is_identifier(pre.key) {
        Some(SchemaFailure::InvalidIdentifier(pre.key))
    } else if first_invalid(pre.update_columns) is Some {
        Some(SchemaFailure::InvalidIdentifier(first_invalid(pre.update_columns)->0))
    } else {
        None
    };
    match failure {
        Some(schema) => {
            &&& post == (UpdateModel { phase: UpdatePhase::Failed, ..pre })
            &&& ends_with(step, BatchFailure::Schema(schema))
        },
        None => {
            &&& post == (UpdateModel { phase: UpdatePhase::OpeningTransaction, ..pre })
            &&& step.report is None
            &&& step.action == UpdateAction::OpenTransaction
        },
    }
}

/// What the count of rows with the current record's key lets an update do:
/// with no such row the record is not found; with no column to set it is
/// counted the same; otherwise the row is updated with the storage values of
/// the columns that have a value, followed by the key.
pub open spec fn counted_step(
    pre: UpdateModel,
    rows: int,
    post: UpdateModel,
    step: UpdateStep,
) -> bool {
    let row = current_row(pre);
    let columns = present(row, pre.update_columns);
    match current_key(pre) {
        None => {
            &&& post == (UpdateModel { phase: UpdatePhase::Failed, ..pre })
            &&& ends_with(step, BatchFailure::UnexpectedEvent)
        },
        Some(key) => if rows == 0 || columns.len() == 0 {
            &&& post == missed_one(pre)
            &&& counted(step, post)
        } else {
            &&& post == (UpdateModel { phase: UpdatePhase::Updating, ..pre })
            &&& step.report is None
            &&& step.action matches UpdateAction::Update { statement, parameters }
            &&& statement@ == update_statement(pre.table, columns, pre.key)
            &&& sql_models(parameters@) == parameters_of(row, columns).push(stored(key))
        },
    }
}

/// What one event does to an update: the state it leaves, the snapshot it
/// reports and the action it asks for.
///
/// A failure reported by the database before the first record ends the
/// update, and so does a failed commit. A record is counted as failed when
/// it has no key value, when its lookup or its statement fails, when no row
/// has its key, when none of the columns to set has a value, or when the
/// statement changes no row; the update goes on. An event that the phase
/// does not expect ends the update.
pub open spec fn update_step(
    pre: UpdateModel,
    event: UpdateEvent,
    post: UpdateModel,
    step: UpdateStep,
) -> bool {
    match (pre.phase, event) {
        (UpdatePhase::Preparing, UpdateEvent::Connected) => if is_identifier(pre.table) {
            &&& post == (UpdateModel { phase: UpdatePhase::AnalyzingSchema, ..pre })
            &&& step.report is None
            &&& step.action matches UpdateAction::ReadSchema { columns_statement }
            &&& columns_statement@ == table_info_statement(pre.table)
        } else {
            &&& post == (UpdateModel { phase: UpdatePhase::Failed, ..pre })
            &&& ends_with(step, BatchFailure::Schema(SchemaFailure::InvalidIdentifier(pre.table)))
        },
        (UpdatePhase::Preparing, UpdateEvent::ConnectionFailed(message)) => {
            &&& post == (UpdateModel { phase: UpdatePhase::Failed, ..pre })
            &&& ends_with(step, BatchFailure::Connection(message@))
        },
        (UpdatePhase::AnalyzingSchema, UpdateEvent::SchemaRead { columns }) => schema_step(
            pre,
            columns_of(column_row_models(columns@)),
            post,
            step,
        ),
        (UpdatePhase::AnalyzingSchema, UpdateEvent::SchemaFailed(message)) => {
            &&& post == (UpdateModel { phase: UpdatePhase::Failed, ..pre })
            &&& ends_with(step, BatchFailure::SchemaRead(message@))
        },
        (UpdatePhase::OpeningTransaction, UpdateEvent::TransactionOpened) => {
            &&& post == (UpdateModel { phase: phase_after(0, pre.total), ..pre })
            &&& reports(step, post, "Mise à jour des données..."@)
            &&& proceeds(step.action, post)
        },
        (UpdatePhase::OpeningTransaction, UpdateEvent::TransactionFailed(message)) => {
            &&& post == (UpdateModel { phase: UpdatePhase::Failed, ..pre })
            &&& ends_with(step, BatchFailure::Prepare(message@))
        },
        (UpdatePhase::Checking, UpdateEvent::Skipped) => if current_key(pre) is None {
            &&& post == failed_one(pre)
            &&& counted(step, post)
        } else {
            &&& post == (UpdateModel { phase: UpdatePhase::Failed, ..pre })
            &&& ends_with(step, BatchFailure::UnexpectedEvent)
        },
        (UpdatePhase::Checking, UpdateEvent::Counted(rows)) => counted_step(
            pre,
            rows as int,
            post,
            step,
        ),
        (UpdatePhase::Checking, UpdateEvent::CheckFailed(_)) => {
            &&& post == failed_one(pre)
            &&& counted(step, post)
        },
        (UpdatePhase::Updating, UpdateEvent::Updated(rows)) => {
            &&& post == if rows > 0 {
                succeeded_one(pre)
            } else {
                failed_one(pre)
            }
            &&& counted(step, post)
        },
        (UpdatePhase::Updating, UpdateEvent::UpdateFailed(_)) => {
            &&& post == failed_one(pre)
            &&& counted(step, post)
        },
        (UpdatePhase::Committing, UpdateEvent::Committed) => {
            &&& post == (UpdateModel { phase: UpdatePhase::Done, ..pre })
            &&& step.report is None
            &&& step.action matches UpdateAction::Finish(Ok(progress))
            &&& progress@ == snapshot_of(
                post,
                update_summary(
                    post.succeeded,
                    (post.failed - post.not_found) as nat,
                    post.not_found,
                ),
            )
        },
        (UpdatePhase::Committing, UpdateEvent::CommitFailed(message)) => {
            &&& post == (UpdateModel { phase: UpdatePhase::Failed, ..pre })
            &&& ends_with(step, BatchFailure::Commit(message@))
        },
        _ => {
            &&& post == (UpdateModel { phase: UpdatePhase::Failed, ..pre })
            &&& ends_with(step, BatchFailure::UnexpectedEvent)
        },
    }
}

/// How an update starts: with the records that the root expression selects
/// and a first snapshot. It fails at once, before any database is opened,
/// where no mapping rule feeds the key column. A dry run is over at once; any
/// other update asks for the database to be opened.
pub open spec fn update_start(
    doc: Json,
    root: Seq<char>,
    table: Seq<char>,
    key: Seq<char>,
    update_columns: Seq<Seq<char>>,
    rules: Seq<RuleModel>,
    dry_run: bool,
    out: Result<(UpdateSession, UpdateStep), BatchError>,
) -> bool {
    match root_objects(doc, root) {
        Err(failure) => out matches Err(error) && error@ == BatchFailure::Path(failure),
        Ok(records) => if records.len() > u32::MAX {
            out matches Err(error) && error@ == BatchFailure::TooManyRecords
        } else if !key_mapped(rules, key) {
            out matches Err(error) && error@ == BatchFailure::Schema(
                SchemaFailure::KeyNotMapped(key),
            )
        } else {
            &&& out matches Ok((session, step))
            &&& session@ == (UpdateModel {
                table,
                key,
                update_columns,
                rules,
                records,
                phase: if dry_run {
                    UpdatePhase::Done
                } else {
                    UpdatePhase::Preparing
                },
                total: records.len(),
                processed: 0,
                succeeded: 0,
                failed: 0,
                not_found: 0,
            })
            &&& reports(step, session@, "Préparation..."@)
            &&& if dry_run {
                step.action matches UpdateAction::Finish(Ok(progress)) && progress@ == snapshot_of(
                    session@,
                    "Simulation terminée (dry run)"@,
                )
            } else {
                step.action == UpdateAction::Connect
            }
        },
    }
}

/// Starts an update from the records that `json_root` selects in `json_data`.
pub fn update_sqlite_from_json_data(
    json_data: &JsonValue,
    json_root: &str,
    table_name: &str,
    key_column: &str,
    update_columns: Vec<String>,
    mapping: Vec<MappingRule>,
    dry_run: bool,
) -> (out: Result<(UpdateSession, UpdateStep), BatchError>)
    ensures
        update_start(
            json_data@,
            json_root@,
            table_name@,
            key_column@,
            texts(update_columns@),
            rule_models(mapping@),
            dry_run,
            out,
        ),
        out matches Ok((session, _)) ==> sound(session@),
{
    let records = match extract_root_objects(json_data, json_root) {
        Ok(records) => records,
        Err(error) => {
            return Err(BatchError::Path(error));
        },
    };
    if records.len() > u32::MAX as usize {
        return Err(BatchError::TooManyRecords);
    }
    if !is_key_mapped(&mapping, key_column) {
        return Err(BatchError::Schema(SchemaError::KeyNotMapped(key_column.to_owned())));
    }
    let total: u32 = records.len() as u32;
    let session = UpdateSession {
        table_name: table_name.to_owned(),
        key_column: key_column.to_owned(),
        update_columns,
        mapping,
        records,
        tally: Tally {
            phase: if dry_run {
                UpdatePhase::Done
            } else {
                UpdatePhase::Preparing
            },
            total,
            processed: 0,
            succeeded: 0,
            failed: 0,
            not_found: 0,
        },
    };
    let report = snapshot(total, 0, 0, 0, "Préparation...");
    let action = if dry_run {
        UpdateAction::Finish(Ok(snapshot(total, 0, 0, 0, "Simulation terminée (dry run)")))
    } else {
        UpdateAction::Connect
    };
    Ok((session, UpdateStep { report: Some(report), action }))
}

/// Starts the update that `config` describes on the document `json_data`.
pub fn update_sqlite_from_json(config: UpdateConfig, json_data: &JsonValue) -> (out: Result<
    (UpdateSession, UpdateStep),
    BatchError,
>)
    ensures
        update_start(
            json_data@,
            config.json_root@,
            config.table_name@,
            config.key_column@,
            texts(config.update_columns@),
            rule_models(config.mapping@),
            config.dry_run,
            out,
        ),
        out matches Ok((session, _)) ==> sound(session@),
{
    update_sqlite_from_json_data(
        json_data,
        config.json_root.as_str(),
        config.table_name.as_str(),
        config.key_column.as_str(),
        config.update_columns,
        config.mapping,
        config.dry_run,
    )
}

impl UpdateSession {
    #[verifier::type_invariant]
    spec fn holds(self) -> bool {
        sound(self@)
    }

    /// The phase that the update is in.
    pub fn phase(&self) -> (phase: UpdatePhase)
        ensures
            phase == self@.phase,
    {
        self.tally.phase
    }

    /// The table that the update writes to.
    pub fn table_name(&self) -> (name: &String)
        ensures
            name@ == self@.table,
    {
        &self.table_name
    }

    /// A snapshot of the counters with the given message.
    pub fn progress(&self, status: &str) -> (progress: ImportProgress)
        ensures
            progress@ == snapshot_of(self@, status@),
    {
        snapshot(
            self.tally.total,
            self.tally.processed,
            self.tally.succeeded,
            self.tally.failed,
            status,
        )
    }

    fn fail(&mut self, error: BatchError) -> (step: UpdateStep)
        ensures
            final(self)@ == (UpdateModel { phase: UpdatePhase::Failed, ..old(self)@ }),
            ends_with(step, error@),
    {
        proof {
            use_type_invariant(&*self);
        }
        self.tally = Tally { phase: UpdatePhase::Failed, ..self.tally };
        UpdateStep { report: None, action: UpdateAction::Finish(Err(error)) }
    }

    fn next_action(&self) -> (action: UpdateAction)
        requires
            self@.phase == UpdatePhase::Checking || self@.phase == UpdatePhase::Committing,
        ensures
            proceeds(action, self@),
    {
        proof {
            use_type_invariant(self);
        }
        if self.tally.processed < self.tally.total {
            let index: usize = self.tally.processed as usize;
            assert(models(self.records@)[index as int] == self.records@[index as int]@);
            let row = apply_mapping(&self.records[index], &self.mapping);
            match row.value_of(self.key_column.as_str()) {
                None => UpdateAction::Skip,
                Some(key) => UpdateAction::CheckExists {
                    statement: build_check_statement(
                        self.table_name.as_str(),
                        self.key_column.as_str(),
                    ),
                    key: key_lookup_text(key),
                },
            }
        } else {
            UpdateAction::Commit
        }
    }

    fn on_connected(&mut self) -> (step: UpdateStep)
        requires
            old(self)@.phase == UpdatePhase::Preparing,
        ensures
            update_step(old(self)@, UpdateEvent::Connected, final(self)@, step),
    {
        let columns_statement = match table_info_query(self.table_name.as_str()) {
            Ok(text) => text,
            Err(error) => {
                return self.fail(BatchError::Schema(error));
            },
        };
        proof {
            use_type_invariant(&*self);
        }
        self.tally = Tally { phase: UpdatePhase::AnalyzingSchema, ..self.tally };
        UpdateStep { report: None, action: UpdateAction::ReadSchema { columns_statement } }
    }

    fn on_schema(&mut self, rows: &Vec<ColumnRow>) -> (step: UpdateStep)
        requires
            old(self)@.phase == UpdatePhase::AnalyzingSchema,
        ensures
            schema_step(old(self)@, columns_of(column_row_models(rows@)), final(self)@, step),
    {
        let ghost columns = columns_of(column_row_models(rows@));
        if rows.len() == 0 {
            return self.fail(
                BatchError::Schema(SchemaError::TableNotFound(self.table_name.clone())),
            );
        }
        let mut names: Vec<String> = Vec::new();
        let mut i: usize = 0;
        while i < rows.len()
            invariant
                i <= rows.len(),
                names@.len() == i,
                forall|k: int| 0 <= k < i ==> names@[k]@ == rows@[k].name@,
            decreases rows.len() - i,
        {
            names.push(rows[i].name.clone());
            i += 1;
        }
        assert(texts(names@) =~= column_names(columns));
        if !has_text(&names, self.key_column.as_str()) {
            return self.fail(
                BatchError::Schema(SchemaError::KeyColumnNotFound(self.key_column.clone())),
            );
        }
        let missing = missing_columns(&self.update_columns, &names);
        assert(texts(missing@).len() == missing@.len());
        if missing.len() > 0 {
            return self.fail(BatchError::Schema(SchemaError::ColumnsNotFound(missing)));
        }
        if !check_identifier(self.key_column.as_str()) {
            return self.fail(
                BatchError::Schema(SchemaError::InvalidIdentifier(self.key_column.clone())),
            );
        }
        match find_invalid(&self.update_columns) {
            Some(name) => {
                return self.fail(BatchError::Schema(SchemaError::InvalidIdentifier(name)));
            },
            None => {},
        }
        proof {
            use_type_invariant(&*self);
        }
        self.tally = Tally { phase: UpdatePhase::OpeningTransaction, ..self.tally };
        UpdateStep { report: None, action: UpdateAction::OpenTransaction }
    }

    fn on_opened(&mut self) -> (step: UpdateStep)
        requires
            old(self)@.phase == UpdatePhase::OpeningTransaction,
        ensures
            update_step(old(self)@, UpdateEvent::TransactionOpened, final(self)@, step),
    {
        proof {
            use_type_invariant(&*self);
        }
        self.tally = Tally {
            phase: if self.tally.total == 0 {
                UpdatePhase::Committing
            } else {
                UpdatePhase::Checking
            },
            ..self.tally
        };
        let report = self.progress("Mise à jour des données...");
        let action = self.next_action();
        UpdateStep { report: Some(report), action }
    }

    fn count(&mut self, updated: bool, found: bool) -> (step: UpdateStep)
        requires
            old(self)@.phase == UpdatePhase::Checking || old(self)@.phase == UpdatePhase::Updating,
            updated ==> found,
        ensures
            final(self)@ == if updated {
                succeeded_one(old(self)@)
            } else if found {
                failed_one(old(self)@)
            } else {
                missed_one(old(self)@)
            },
            counted(step, final(self)@),
    {
        proof {
            use_type_invariant(&*self);
        }
        let processed: u32 = self.tally.processed + 1;
        self.tally = Tally {
            phase: if processed == self.tally.total {
                UpdatePhase::Committing
            } else {
                UpdatePhase::Checking
            },
            total: self.tally.total,
            processed,
            succeeded: if updated {
                self.tally.succeeded + 1
            } else {
                self.tally.succeeded
            },
            failed: if updated {
                self.tally.failed
            } else {
                self.tally.failed + 1
            },
            not_found: if found {
                self.tally.not_found
            } else {
                self.tally.not_found + 1
            },
        };
        let report = if should_report(self.tally.processed, self.tally.total) {
            let status = advance_message(self.tally.processed, self.tally.total);
            Some(self.progress(status.as_str()))
        } else {
            None
        };
        let action = self.next_action();
        UpdateStep { report, action }
    }

    fn on_skipped(&mut self) -> (step: UpdateStep)
        requires
            old(self)@.phase == UpdatePhase::Checking,
        ensures
            update_step(old(self)@, UpdateEvent::Skipped, final(self)@, step),
    {
        proof {
            use_type_invariant(&*self);
        }
        let index: usize = self.tally.processed as usize;
        assert(models(self.records@)[index as int] == self.records@[index as int]@);
        let row = apply_mapping(&self.records[index], &self.mapping);
        if row.value_of(self.key_column.as_str()).is_some() {
            self.fail(BatchError::UnexpectedEvent)
        } else {
            self.count(false, true)
        }
    }

    fn on_counted(&mut self, rows: i64) -> (step: UpdateStep)
        requires
            old(self)@.phase == UpdatePhase::Checking,
        ensures
            counted_step(old(self)@, rows as int, final(self)@, step),
    {
        proof {
            use_type_invariant(&*self);
        }
        let index: usize = self.tally.processed as usize;
        assert(models(self.records@)[index as int] == self.records@[index as int]@);
        let row = apply_mapping(&self.records[index], &self.mapping);
        let key = match row.value_of(self.key_column.as_str()) {
            Some(key) => key,
            None => {
                return self.fail(BatchError::UnexpectedEvent);
            },
        };
        let columns = present_columns(&row, &self.update_columns);
        assert(texts(columns@).len() == columns@.len());
        if rows == 0 || columns.len() == 0 {
            return self.count(false, false);
        }
        let statement = build_update_statement(
            self.table_name.as_str(),
            &columns,
            self.key_column.as_str(),
        );
        let mut values = parameters(&row, &columns);
        let ghost before = sql_models(values@);
        values.push(coerce(key));
        assert(sql_models(values@) =~= before.push(stored(key@)));
        self.tally = Tally { phase: UpdatePhase::Updating, ..self.tally };
        UpdateStep { report: None, action: UpdateAction::Update { statement, parameters: values } }
    }

    fn on_committed(&mut self) -> (step: UpdateStep)
        requires
            old(self)@.phase == UpdatePhase::Committing,
        ensures
            update_step(old(self)@, UpdateEvent::Committed, final(self)@, step),
    {
        proof {
            use_type_invariant(&*self);
        }
        self.tally = Tally { phase: UpdatePhase::Done, ..self.tally };
        let status = update_message(
            self.tally.succeeded,
            self.tally.failed - self.tally.not_found,
            self.tally.not_found,
        );
        let progress = self.progress(status.as_str());
        UpdateStep { report: None, action: UpdateAction::Finish(Ok(progress)) }
    }

    /// Takes what the database reported and decides how the update goes on.
    pub fn advance(&mut self, event: UpdateEvent) -> (step: UpdateStep)
        ensures
            update_step(old(self)@, event, final(self)@, step),
            sound(old(self)@),
            sound(final(self)@),
    {
        proof {
            use_type_invariant(&*self);
        }
        let step = match self.tally.phase {
            UpdatePhase::Preparing => match event {
                UpdateEvent::Connected => self.on_connected(),
                UpdateEvent::ConnectionFailed(message) => self.fail(
                    BatchError::Connection(message),
                ),
                _ => self.fail(BatchError::UnexpectedEvent),
            },
            UpdatePhase::AnalyzingSchema => match event {
                UpdateEvent::SchemaRead { columns } => self.on_schema(&columns),
                UpdateEvent::SchemaFailed(message) => self.fail(BatchError::SchemaRead(message)),
                _ => self.fail(BatchError::UnexpectedEvent),
            },
            UpdatePhase::OpeningTransaction => match event {
                UpdateEvent::TransactionOpened => self.on_opened(),
                UpdateEvent::TransactionFailed(message) => self.fail(BatchError::Prepare(message)),
                _ => self.fail(BatchError::UnexpectedEvent),
            },
            UpdatePhase::Checking => match event {
                UpdateEvent::Skipped => self.on_skipped(),
                UpdateEvent::Counted(rows) => self.on_counted(rows),
                UpdateEvent::CheckFailed(_) => self.count(false, true),
                _ => self.fail(BatchError::UnexpectedEvent),
            },
            UpdatePhase::Updating => match event {
                UpdateEvent::Updated(rows) => self.count(rows > 0, true),
                UpdateEvent::UpdateFailed(_) => self.count(false, true),
                _ => self.fail(BatchError::UnexpectedEvent),
            },
            UpdatePhase::Committing => match event {
                UpdateEvent::Committed => self.on_committed(),
                UpdateEvent::CommitFailed(message) => self.fail(BatchError::Commit(message)),
                _ => self.fail(BatchError::UnexpectedEvent),
            },
            _ => self.fail(BatchError::UnexpectedEvent),
        };
        proof {
            use_type_invariant(&*self);
        }
        step
    }
}

} // verus!
