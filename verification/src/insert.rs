//! The batch loader: the decisions of an import, from the records to load
//! to the final progress record.

use vstd::prelude::*;
use vstd::string::StringExecFns;
use crate::failure::BatchError;
use crate::failure::BatchFailure;
use crate::names::add_name;
use crate::names::with_names;
use crate::path::extract_root_objects;
use crate::path::root_objects;
use crate::path::rule_models;
use crate::path::MappingRule;
use crate::path::RuleModel;
use crate::progress::advance_message;
use crate::progress::advance_status;
use crate::progress::import_message;
use crate::progress::import_summary;
use crate::progress::report_due;
use crate::progress::should_report;
use crate::progress::snapshot;
use crate::progress::ImportProgress;
use crate::progress::Phase;
use crate::progress::ProgressModel;
use crate::schema::check_identifier;
use crate::schema::column_models;
use crate::schema::column_names;
use crate::schema::column_row_models;
use crate::schema::columns_of;
use crate::schema::find_column;
use crate::schema::get_table_columns;
use crate::schema::get_unique_columns;
use crate::schema::index_list_query;
use crate::schema::index_list_statement;
use crate::schema::index_models;
use crate::schema::is_identifier;
use crate::schema::lemma_column_named;
use crate::schema::table_info_query;
use crate::schema::table_info_statement;
use crate::schema::unique_columns_of;
use crate::schema::ColumnInfo;
use crate::schema::ColumnModel;
use crate::schema::ColumnRow;
use crate::schema::IndexRow;
use crate::schema::SchemaError;
use crate::schema::SchemaFailure;
use crate::storage::parameters;
use crate::storage::parameters_of;
use crate::storage::sql_models;
use crate::storage::SqlValue;
use crate::synth::literal_models;
use crate::synth::synthesize;
use crate::synth::synthesized;
use crate::synth::template_models;
use crate::synth::ColumnLiteral;
use crate::synth::ColumnTemplate;
use crate::synth::LiteralModel;
use crate::synth::PlanModel;
use crate::synth::TemplateModel;
use crate::synth::Values;
use crate::schema::optional_text;
use crate::text::has_text;
use crate::text::join_texts;
use crate::text::joined;
use crate::text::texts;
use crate::value::models;
use crate::value::Json;
use crate::value::JsonValue;

verus! {

/// What an import is asked to do.
#[derive(Debug, PartialEq, Eq)]
pub struct ImportConfig {
    pub json_path: String,
    pub db_path: String,
    pub json_root: String,
    pub table_name: String,
    pub mapping: Vec<MappingRule>,
    pub defaults: Option<Vec<ColumnLiteral>>,
    pub forced: Option<Vec<ColumnLiteral>>,
    pub dynamic: Option<Vec<ColumnTemplate>>,
    pub limit: Option<u32>,
    pub offset: Option<u32>,
    pub dry_run: bool,
}

/// The records left when the first `offset` are dropped; an offset of zero
/// or beyond the last record drops nothing.
pub open spec fn after_offset<T>(records: Seq<T>, offset: nat) -> Seq<T> {
    if 0 < offset && offset < records.len() {
        records.skip(offset as int)
    } else {
        records
    }
}

/// The first `limit` records; a limit of zero or beyond the last record
/// keeps them all.
pub open spec fn after_limit<T>(records: Seq<T>, limit: nat) -> Seq<T> {
    if 0 < limit && limit < records.len() {
        records.take(limit as int)
    } else {
        records
    }
}

/// The number that an optional count stands for: zero where none is given.
pub open spec fn count_of(count: Option<u32>) -> nat {
    match count {
        Some(n) => n as nat,
        None => 0,
    }
}

/// The records to process: the offset is applied first, then the limit.
pub open spec fn windowed<T>(records: Seq<T>, offset: Option<u32>, limit: Option<u32>) -> Seq<T> {
    after_limit(after_offset(records, count_of(offset)), count_of(limit))
}

/// Applies the offset and then the limit to the records.
pub fn apply_window(records: Vec<JsonValue>, offset: Option<u32>, limit: Option<u32>) -> (out: Vec<
    JsonValue,
>)
    ensures
        models(out@) == windowed(models(records@), offset, limit),
        out@ == windowed(records@, offset, limit),
{
    let mut records = records;
    let ghost all = records@;
    let skip: usize = match offset {
        Some(n) => n as usize,
        None => 0,
    };
    if skip > 0 && skip < records.len() {
        records = records.split_off(skip);
        assert(records@ =~= all.skip(skip as int));
    }
    let ghost dropped = records@;
    assert(dropped == after_offset(all, count_of(offset)));
    let keep: usize = match limit {
        Some(n) => n as usize,
        None => 0,
    };
    if keep > 0 && keep < records.len() {
        records.truncate(keep);
        assert(records@ =~= dropped.take(keep as int));
    }
    proof {
        assert(records@ == windowed(all, offset, limit));
        assert(models(after_offset(all, count_of(offset))) =~= after_offset(
            models(all),
            count_of(offset),
        ));
        assert(models(records@) =~= windowed(models(all), offset, limit));
    }
    records
}

/// The columns that the rules feed, in rule order.
pub open spec fn rule_columns(rules: Seq<RuleModel>) -> Seq<Seq<char>> {
    Seq::new(rules.len(), |i: int| rules[i].column)
}

/// The columns that the literals are given for, in order.
pub open spec fn literal_columns(literals: Seq<LiteralModel>) -> Seq<Seq<char>> {
    Seq::new(literals.len(), |i: int| literals[i].column)
}

/// The columns that the templates are given for, in order.
pub open spec fn template_columns(templates: Seq<TemplateModel>) -> Seq<Seq<char>> {
    Seq::new(templates.len(), |i: int| templates[i].column)
}

/// Every column that gets a value from a rule, a default, a forced value or
/// a template, each once, in the order first met.
pub open spec fn candidate_columns(
    rules: Seq<RuleModel>,
    defaults: Seq<LiteralModel>,
    forced: Seq<LiteralModel>,
    templates: Seq<TemplateModel>,
) -> Seq<Seq<char>> {
    with_names(
        with_names(
            with_names(
                with_names(Seq::empty(), rule_columns(rules)),
                literal_columns(defaults),
            ),
            literal_columns(forced),
        ),
        template_columns(templates),
    )
}

/// The names among `names` that are also among `allowed`, in order.
pub open spec fn kept(names: Seq<Seq<char>>, allowed: Seq<Seq<char>>) -> Seq<Seq<char>>
    decreases names.len(),
{
    if names.len() == 0 {
        Seq::empty()
    } else {
        let before = kept(names.drop_last(), allowed);
        if allowed.contains(names.last()) {
            before.push(names.last())
        } else {
            before
        }
    }
}

/// The columns that an insert writes: those that get a value and exist on
/// the table.
pub open spec fn target_columns(
    rules: Seq<RuleModel>,
    defaults: Seq<LiteralModel>,
    forced: Seq<LiteralModel>,
    templates: Seq<TemplateModel>,
    columns: Seq<ColumnModel>,
) -> Seq<Seq<char>> {
    kept(candidate_columns(rules, defaults, forced, templates), column_names(columns))
}

fn add_rule_columns(names: &mut Vec<String>, rules: &Vec<MappingRule>)
    ensures
        texts(final(names)@) == with_names(
            texts(old(names)@),
            rule_columns(rule_models(rules@)),
        ),
{
    let ghost start = texts(names@);
    let ghost all = rule_columns(rule_models(rules@));
    let mut i: usize = 0;
    proof {
        assert(all.take(0) =~= Seq::<Seq<char>>::empty());
    }
    while i < rules.len()
        invariant
            i <= rules.len(),
            all == rule_columns(rule_models(rules@)),
            texts(names@) == with_names(start, all.take(i as int)),
        decreases rules.len() - i,
    {
        add_name(names, rules[i].column.as_str());
        proof {
            let upto = all.take(i + 1);
            assert(upto.drop_last() =~= all.take(i as int));
            assert(upto.last() == rules@[i as int].column@);
        }
        i += 1;
    }
    proof {
        assert(all.take(i as int) =~= all);
    }
}

fn add_literal_columns(names: &mut Vec<String>, literals: &Vec<ColumnLiteral>)
    ensures
        texts(final(names)@) == with_names(
            texts(old(names)@),
            literal_columns(literal_models(literals@)),
        ),
{
    let ghost start = texts(names@);
    let ghost all = literal_columns(literal_models(literals@));
    let mut i: usize = 0;
    proof {
        assert(all.take(0) =~= Seq::<Seq<char>>::empty());
    }
    while i < literals.len()
        invariant
            i <= literals.len(),
            all == literal_columns(literal_models(literals@)),
            texts(names@) == with_names(start, all.take(i as int)),
        decreases literals.len() - i,
    {
        add_name(names, literals[i].column.as_str());
        proof {
            let upto = all.take(i + 1);
            assert(upto.drop_last() =~= all.take(i as int));
            assert(upto.last() == literals@[i as int].column@);
        }
        i += 1;
    }
    proof {
        assert(all.take(i as int) =~= all);
    }
}

fn add_template_columns(names: &mut Vec<String>, templates: &Vec<ColumnTemplate>)
    ensures
        texts(final(names)@) == with_names(
            texts(old(names)@),
            template_columns(template_models(templates@)),
        ),
{
    let ghost start = texts(names@);
    let ghost all = template_columns(template_models(templates@));
    let mut i: usize = 0;
    proof {
        assert(all.take(0) =~= Seq::<Seq<char>>::empty());
    }
    while i < templates.len()
        invariant
            i <= templates.len(),
            all == template_columns(template_models(templates@)),
            texts(names@) == with_names(start, all.take(i as int)),
        decreases templates.len() - i,
    {
        add_name(names, templates[i].column.as_str());
        proof {
            let upto = all.take(i + 1);
            assert(upto.drop_last() =~= all.take(i as int));
            assert(upto.last() == templates@[i as int].column@);
        }
        i += 1;
    }
    proof {
        assert(all.take(i as int) =~= all);
    }
}

/// Computes the columns that an insert writes.
pub fn columns_to_include(
    mapping: &Vec<MappingRule>,
    defaults: &Vec<ColumnLiteral>,
    forced: &Vec<ColumnLiteral>,
    dynamic: &Vec<ColumnTemplate>,
    columns: &Vec<ColumnInfo>,
) -> (targets: Vec<String>)
    ensures
        texts(targets@) == target_columns(
            rule_models(mapping@),
            literal_models(defaults@),
            literal_models(forced@),
            template_models(dynamic@),
            column_models(columns@),
        ),
{
    let mut candidates: Vec<String> = Vec::new();
    assert(texts(candidates@) =~= Seq::<Seq<char>>::empty());
    add_rule_columns(&mut candidates, mapping);
    add_literal_columns(&mut candidates, defaults);
    add_literal_columns(&mut candidates, forced);
    add_template_columns(&mut candidates, dynamic);
    let ghost all = texts(candidates@);
    let ghost allowed = column_names(column_models(columns@));
    let mut targets: Vec<String> = Vec::new();
    let mut i: usize = 0;
    proof {
        assert(all.take(0) =~= Seq::<Seq<char>>::empty());
        assert(texts(targets@) =~= Seq::<Seq<char>>::empty());
    }
    while i < candidates.len()
        invariant
            i <= candidates.len(),
            all == texts(candidates@),
            allowed == column_names(column_models(columns@)),
            texts(targets@) == kept(all.take(i as int), allowed),
        decreases candidates.len() - i,
    {
        proof {
            let upto = all.take(i + 1);
            assert(upto.drop_last() =~= all.take(i as int));
            assert(upto.last() == candidates@[i as int]@);
            lemma_column_named(column_models(columns@), candidates@[i as int]@);
        }
        if find_column(columns, candidates[i].as_str()).is_some() {
            let ghost before = texts(targets@);
            targets.push(candidates[i].clone());
            assert(texts(targets@) =~= before.push(candidates@[i as int]@));
        }
        i += 1;
    }
    proof {
        assert(all.take(i as int) =~= all);
    }
    targets
}

/// Whether a column must get a value: it is declared not-null and has no
/// declared default.
pub open spec fn required(column: ColumnModel) -> bool {
    column.not_null && column.default_value is None
}

/// The required columns that are not among the target columns, in column order.
pub open spec fn uncovered(columns: Seq<ColumnModel>, targets: Seq<Seq<char>>) -> Seq<Seq<char>>
    decreases columns.len(),
{
    if columns.len() == 0 {
        Seq::empty()
    } else {
        let before = uncovered(columns.drop_last(), targets);
        if required(columns.last()) && !targets.contains(columns.last().name) {
            before.push(columns.last().name)
        } else {
            before
        }
    }
}

/// Lists the required columns that are not among the target columns.
pub fn missing_required_columns(columns: &Vec<ColumnInfo>, targets: &Vec<String>) -> (missing: Vec<
    String,
>)
    ensures
        texts(missing@) == uncovered(column_models(columns@), texts(targets@)),
{
    let ghost all = column_models(columns@);
    let mut missing: Vec<String> = Vec::new();
    let mut i: usize = 0;
    proof {
        assert(all.take(0) =~= Seq::<ColumnModel>::empty());
        assert(texts(missing@) =~= Seq::<Seq<char>>::empty());
    }
    while i < columns.len()
        invariant
            i <= columns.len(),
            all == column_models(columns@),
            texts(missing@) == uncovered(all.take(i as int), texts(targets@)),
        decreases columns.len() - i,
    {
        proof {
            let upto = all.take(i + 1);
            assert(upto.drop_last() =~= all.take(i as int));
            assert(upto.last() == columns@[i as int]@);
        }
        let column = &columns[i];
        if column.not_null && column.default_value.is_none() && !has_text(
            targets,
            column.name.as_str(),
        ) {
            let ghost before = texts(missing@);
            missing.push(column.name.clone());
            assert(texts(missing@) =~= before.push(column.name@));
        }
        i += 1;
    }
    proof {
        assert(all.take(i as int) =~= all);
    }
    missing
}

/// The first name that is not a plain identifier, if there is one.
pub open spec fn first_invalid(names: Seq<Seq<char>>) -> Option<Seq<char>>
    decreases names.len(),
{
    if names.len() == 0 {
        None
    } else if !is_identifier(names[0]) {
        Some(names[0])
    } else {
        first_invalid(names.drop_first())
    }
}

/// Finds the first name that is not a plain identifier.
pub fn find_invalid(names: &Vec<String>) -> (found: Option<String>)
    ensures
        optional_text(found) == first_invalid(texts(names@)),
{
    let ghost all = texts(names@);
    let mut i: usize = 0;
    proof {
        assert(all.skip(0) =~= all);
    }
    while i < names.len()
        invariant
            i <= names.len(),
            all == texts(names@),
            first_invalid(all) == first_invalid(all.skip(i as int)),
        decreases names.len() - i,
    {
        proof {
            assert(all.skip(i as int)[0] == names@[i as int]@);
            assert(all.skip(i as int).drop_first() =~= all.skip(i + 1));
        }
        if !check_identifier(names[i].as_str()) {
            return Some(names[i].clone());
        }
        i += 1;
    }
    proof {
        assert(all.skip(i as int).len() == 0);
    }
    None
}

/// A run of `count` parameter marks.
pub open spec fn marks(count: nat) -> Seq<Seq<char>> {
    Seq::new(count, |i: int| "?"@)
}

/// The text of the insert statement for the given table and columns, with
/// one parameter mark for each column.
pub open spec fn insert_statement(table: Seq<char>, targets: Seq<Seq<char>>) -> Seq<char> {
    "INSERT INTO "@ + table + " ("@ + joined(targets, ", "@) + ") VALUES ("@ + joined(
        marks(targets.len()),
        ", "@,
    ) + ")"@
}

/// Builds the text of the insert statement.
pub fn build_insert_statement(table: &str, targets: &Vec<String>) -> (out: String)
    ensures
        out@ == insert_statement(table@, texts(targets@)),
{
    let mut placeholders: Vec<String> = Vec::new();
    let mut i: usize = 0;
    while i < targets.len()
        invariant
            i <= targets.len(),
            placeholders@.len() == i,
            forall|k: int| 0 <= k < i ==> placeholders@[k]@ == "?"@,
        decreases targets.len() - i,
    {
        placeholders.push("?".to_owned());
        i += 1;
    }
    assert(texts(placeholders@) =~= marks(targets@.len()));
    assert(texts(targets@).len() == targets@.len());
    let names = join_texts(targets, ", ");
    let values = join_texts(&placeholders, ", ");
    let mut out = String::new();
    out.append("INSERT INTO ");
    out.append(table);
    out.append(" (");
    out.append(names.as_str());
    out.append(") VALUES (");
    out.append(values.as_str());
    out.append(")");
    assert(out@ =~= insert_statement(table@, texts(targets@)));
    out
}

/// What the database reported back to an import.
#[derive(Debug, PartialEq, Eq)]
pub enum ImportEvent {
    /// The database is open.
    Connected,
    /// The database could not be opened.
    ConnectionFailed(String),
    /// The table's column listing and indexes were read.
    SchemaRead { columns: Vec<ColumnRow>, indexes: Vec<IndexRow> },
    /// The table's metadata could not be read.
    SchemaFailed(String),
    /// The transaction is open and the statement prepared.
    Prepared,
    /// The transaction or the statement could not be set up.
    PrepareFailed(String),
    /// The statement ran for the current record.
    RowInserted,
    /// The statement failed for the current record.
    RowFailed(String),
    /// The transaction is committed.
    Committed,
    /// The transaction could not be committed.
    CommitFailed(String),
}

/// What an import asks to be done next.
#[derive(Debug, PartialEq, Eq)]
pub enum ImportAction {
    /// Open the database.
    Connect,
    /// Read the table's column listing with the first statement and its
    /// indexes with the second.
    ReadSchema { columns_statement: String, indexes_statement: String },
    /// Open a transaction and prepare this statement in it.
    Prepare { statement: String },
    /// Run the prepared statement with these values.
    Insert { parameters: Vec<SqlValue> },
    /// Commit the transaction.
    Commit,
    /// The import is over. A final progress record is the last one to report.
    Finish(Result<ImportProgress, BatchError>),
}

/// One step of an import: a snapshot to report, if one is due, and what to
/// do next.
#[derive(Debug, PartialEq, Eq)]
pub struct ImportStep {
    pub report: Option<ImportProgress>,
    pub action: ImportAction,
}

/// The model of an import in progress.
pub struct ImportModel {
    pub table: Seq<char>,
    pub rules: Seq<RuleModel>,
    pub defaults: Seq<LiteralModel>,
    pub forced: Seq<LiteralModel>,
    pub templates: Seq<TemplateModel>,
    pub records: Seq<Json>,
    pub phase: Phase,
    pub total: nat,
    pub processed: nat,
    pub succeeded: nat,
    pub failed: nat,
    pub columns: Seq<ColumnModel>,
    pub unique_columns: Seq<Seq<char>>,
    pub targets: Seq<Seq<char>>,
}

/// An import in progress: the records to load, what decides their column
/// values, the table's metadata once read, and the counters.
pub struct ImportSession {
    table_name: String,
    mapping: Vec<MappingRule>,
    defaults: Vec<ColumnLiteral>,
    forced: Vec<ColumnLiteral>,
    dynamic: Vec<ColumnTemplate>,
    records: Vec<JsonValue>,
    tally: Tally,
    columns: Vec<ColumnInfo>,
    unique_columns: Vec<String>,
    targets: Vec<String>,
}

#[derive(Clone, Copy)]
struct Tally {
    phase: Phase,
    total: u32,
    processed: u32,
    succeeded: u32,
    failed: u32,
}

impl View for ImportSession {
    type V = ImportModel;

    closed spec fn view(&self) -> ImportModel {
        ImportModel {
            table: self.table_name@,
            rules: rule_models(self.mapping@),
            defaults: literal_models(self.defaults@),
            forced: literal_models(self.forced@),
            templates: template_models(self.dynamic@),
            records: models(self.records@),
            phase: self.tally.phase,
            total: self.tally.total as nat,
            processed: self.tally.processed as nat,
            succeeded: self.tally.succeeded as nat,
            failed: self.tally.failed as nat,
            columns: column_models(self.columns@),
            unique_columns: texts(self.unique_columns@),
            targets: texts(self.targets@),
        }
    }
}

/// What decides the column values of an import's records.
pub open spec fn plan_of(import: ImportModel) -> PlanModel {
    PlanModel {
        rules: import.rules,
        defaults: import.defaults,
        forced: import.forced,
        templates: import.templates,
        columns: import.columns,
        unique_columns: import.unique_columns,
    }
}

/// Whether an import's counters agree with its records and its phase: every
/// processed record either succeeded or failed, no more were processed than
/// there are, none before the statement is prepared, and all of them once the
/// transaction is to be committed.
pub open spec fn sound(import: ImportModel) -> bool {
    &&& import.total == import.records.len()
    &&& import.processed == import.succeeded + import.failed
    &&& import.processed <= import.total
    &&& import.phase == Phase::Preparing || import.phase == Phase::AnalyzingSchema || import.phase
        == Phase::PreparingStatement ==> import.processed == 0
    &&& import.phase == Phase::Inserting ==> import.processed < import.total
    &&& import.phase == Phase::Committing ==> import.processed == import.total
}

/// The snapshot of an import with the given message.
pub open spec fn snapshot_of(import: ImportModel, status: Seq<char>) -> ProgressModel {
    ProgressModel {
        total: import.total,
        processed: import.processed,
        succeeded: import.succeeded,
        failed: import.failed,
        status,
    }
}

/// Whether a step reports nothing and ends the import with the given failure.
pub open spec fn ends_with(step: ImportStep, failure: BatchFailure) -> bool {
    &&& step.report is None
    &&& step.action matches ImportAction::Finish(Err(error))
    &&& error@ == failure
}

/// Whether a step reports a snapshot with the given message.
pub open spec fn reports(step: ImportStep, import: ImportModel, status: Seq<char>) -> bool {
    step.report matches Some(progress) && progress@ == snapshot_of(import, status)
}

/// Whether the action is the one for an import that has its statement: the
/// insert of the next record, with the storage values of the target columns
/// taken from the record's synthesized column values, or the commit once no
/// record is left.
pub open spec fn proceeds(action: ImportAction, import: ImportModel) -> bool {
    if import.processed < import.total {
        &&& import.phase == Phase::Inserting
        &&& action matches ImportAction::Insert { parameters }
        &&& exists|row: Values|
            #![trigger
                synthesized(
                    import.records[import.processed as int],
                    row,
                    import.processed,
                    plan_of(import),
                ),
            ]
            synthesized(
                import.records[import.processed as int],
                row,
                import.processed,
                plan_of(import),
            ) && sql_models(parameters@) == parameters_of(row, import.targets)
    } else {
        &&& import.phase == Phase::Committing
        &&& action == ImportAction::Commit
    }
}

/// What the table's metadata lets an import do: fail, or go on to prepare
/// its statement.
pub open spec fn schema_step(
    pre: ImportModel,
    columns: Seq<ColumnModel>,
    unique_columns: Seq<Seq<char>>,
    post: ImportModel,
    step: ImportStep,
) -> bool {
    let targets = target_columns(pre.rules, pre.defaults, pre.forced, pre.templates, columns);
    let missing = uncovered(columns, targets);
    if columns.len() == 0 {
        &&& post == (ImportModel { phase: Phase::Failed, ..pre })
        &&& ends_with(step, BatchFailure::Schema(SchemaFailure::TableNotFound(pre.table)))
    } else if missing.len() > 0 {
        &&& post == (ImportModel { phase: Phase::Failed, ..pre })
        &&& ends_with(step, BatchFailure::Schema(SchemaFailure::RequiredColumnsUncovered(missing)))
    } else if first_invalid(targets) is Some {
        &&& post == (ImportModel { phase: Phase::Failed, ..pre })
        &&& ends_with(
            step,
            BatchFailure::Schema(SchemaFailure::InvalidIdentifier(first_invalid(targets)->0)),
        )
    } else {
        &&& post == (ImportModel {
            phase: Phase::PreparingStatement,
            columns,
            unique_columns,
            targets,
            ..pre
        })
        &&& reports(step, post, "Préparation de l'insertion..."@)
        &&& step.action matches ImportAction::Prepare { statement }
        &&& statement@ == insert_statement(pre.table, targets)
    }
}

/// What one event does to an import: the state it leaves, the snapshot it
/// reports and the action it asks for.
///
/// A failure reported by the database before the first record ends the
/// import, and so does a failed commit. The outcome of a record is counted
/// and the import goes on. An event that the phase does not expect ends the
/// import.
pub open spec fn import_step(
    pre: ImportModel,
    event: ImportEvent,
    post: ImportModel,
    step: ImportStep,
) -> bool {
    match (pre.phase, event) {
        (Phase::Preparing, ImportEvent::Connected) => if is_identifier(pre.table) {
            &&& post == (ImportModel { phase: Phase::AnalyzingSchema, ..pre })
            &&& reports(step, post, "Analyse de la structure de la table..."@)
            &&& step.action matches ImportAction::ReadSchema {
                columns_statement,
                indexes_statement,
            }
            &&& columns_statement@ == table_info_statement(pre.table)
            &&& indexes_statement@ == index_list_statement(pre.table)
        } else {
            &&& post == (ImportModel { phase: Phase::Failed, ..pre })
            &&& ends_with(step, BatchFailure::Schema(SchemaFailure::InvalidIdentifier(pre.table)))
        },
        (Phase::Preparing, ImportEvent::ConnectionFailed(message)) => {
            &&& post == (ImportModel { phase: Phase::Failed, ..pre })
            &&& ends_with(step, BatchFailure::Connection(message@))
        },
        (Phase::AnalyzingSchema, ImportEvent::SchemaRead { columns, indexes }) => schema_step(
            pre,
            columns_of(column_row_models(columns@)),
            unique_columns_of(index_models(indexes@)),
            post,
            step,
        ),
        (Phase::AnalyzingSchema, ImportEvent::SchemaFailed(message)) => {
            &&& post == (ImportModel { phase: Phase::Failed, ..pre })
            &&& ends_with(step, BatchFailure::SchemaRead(message@))
        },
        (Phase::PreparingStatement, ImportEvent::Prepared) => {
            &&& post == (ImportModel {
                phase: if pre.total == 0 {
                    Phase::Committing
                } else {
                    Phase::Inserting
                },
                ..pre
            })
            &&& reports(step, post, "Insertion des données..."@)
            &&& proceeds(step.action, post)
        },
        (Phase::PreparingStatement, ImportEvent::PrepareFailed(message)) => {
            &&& post == (ImportModel { phase: Phase::Failed, ..pre })
            &&& ends_with(step, BatchFailure::Prepare(message@))
        },
        (Phase::Inserting, ImportEvent::RowInserted) => {
            &&& post == (ImportModel {
                phase: if pre.processed + 1 == pre.total {
                    Phase::Committing
                } else {
                    Phase::Inserting
                },
                processed: pre.processed + 1,
                succeeded: pre.succeeded + 1,
                ..pre
            })
            &&& counted(step, post)
        },
        (Phase::Inserting, ImportEvent::RowFailed(_)) => {
            &&& post == (ImportModel {
                phase: if pre.processed + 1 == pre.total {
                    Phase::Committing
                } else {
                    Phase::Inserting
                },
                processed: pre.processed + 1,
                failed: pre.failed + 1,
                ..pre
            })
            &&& counted(step, post)
        },
        (Phase::Committing, ImportEvent::Committed) => {
            &&& post == (ImportModel { phase: Phase::Done, ..pre })
            &&& step.report is None
            &&& step.action matches ImportAction::Finish(Ok(progress))
            &&& progress@ == snapshot_of(post, import_summary(post.succeeded, post.failed))
        },
        (Phase::Committing, ImportEvent::CommitFailed(message)) => {
            &&& post == (ImportModel { phase: Phase::Failed, ..pre })
            &&& ends_with(step, BatchFailure::Commit(message@))
        },
        _ => {
            &&& post == (ImportModel { phase: Phase::Failed, ..pre })
            &&& ends_with(step, BatchFailure::UnexpectedEvent)
        },
    }
}

/// Whether a step is the one that follows a counted record: a snapshot is
/// reported exactly when one is due, and the import proceeds.
pub open spec fn counted(step: ImportStep, post: ImportModel) -> bool {
    &&& if report_due(post.processed, post.total) {
        reports(step, post, advance_status(post.processed, post.total))
    } else {
        step.report is None
    }
    &&& proceeds(step.action, post)
}

/// How an import starts: with the records that the root expression selects,
/// cut to the window, and a first snapshot. A dry run is over at once;
/// any other import asks for the database to be opened.
pub open spec fn import_start(
    doc: Json,
    root: Seq<char>,
    table: Seq<char>,
    rules: Seq<RuleModel>,
    defaults: Seq<LiteralModel>,
    forced: Seq<LiteralModel>,
    templates: Seq<TemplateModel>,
    limit: Option<u32>,
    offset: Option<u32>,
    dry_run: bool,
    out: Result<(ImportSession, ImportStep), BatchError>,
) -> bool {
    match root_objects(doc, root) {
        Err(failure) => out matches Err(error) && error@ == BatchFailure::Path(failure),
        Ok(records) => {
            let window = windowed(records, offset, limit);
            if window.len() > u32::MAX {
                out matches Err(error) && error@ == BatchFailure::TooManyRecords
            } else {
                &&& out matches Ok((session, step))
                &&& session@ == (ImportModel {
                    table,
                    rules,
                    defaults,
                    forced,
                    templates,
                    records: window,
                    phase: if dry_run {
                        Phase::Done
                    } else {
                        Phase::Preparing
                    },
                    total: window.len(),
                    processed: 0,
                    succeeded: 0,
                    failed: 0,
                    columns: Seq::empty(),
                    unique_columns: Seq::empty(),
                    targets: Seq::empty(),
                })
                &&& reports(step, session@, "Préparation..."@)
                &&& if dry_run {
                    step.action matches ImportAction::Finish(Ok(progress)) && progress@
                        == snapshot_of(session@, "Simulation terminée (dry run)"@)
                } else {
                    step.action == ImportAction::Connect
                }
            }
        },
    }
}

fn or_empty<T>(items: Option<Vec<T>>) -> (out: Vec<T>)
    ensures
        out@ == match items {
            Some(v) => v@,
            None => Seq::empty(),
        },
{
    match items {
        Some(v) => v,
        None => Vec::new(),
    }
}

/// The literals of an optional list: none where no list is given.
pub open spec fn literals_or_none(literals: Option<Vec<ColumnLiteral>>) -> Seq<LiteralModel> {
    match literals {
        Some(v) => literal_models(v@),
        None => Seq::empty(),
    }
}

/// The templates of an optional list: none where no list is given.
pub open spec fn templates_or_none(templates: Option<Vec<ColumnTemplate>>) -> Seq<TemplateModel> {
    match templates {
        Some(v) => template_models(v@),
        None => Seq::empty(),
    }
}

/// Starts an import of the records that `json_root` selects in `json_data`.
pub fn insert_json_data(
    json_data: &JsonValue,
    json_root: &str,
    table_name: &str,
    mapping: Vec<MappingRule>,
    defaults: Option<Vec<ColumnLiteral>>,
    forced: Option<Vec<ColumnLiteral>>,
    dynamic: Option<Vec<ColumnTemplate>>,
    limit: Option<u32>,
    offset: Option<u32>,
    dry_run: bool,
) -> (out: Result<(ImportSession, ImportStep), BatchError>)
    ensures
        import_start(
            json_data@,
            json_root@,
            table_name@,
            rule_models(mapping@),
            literals_or_none(defaults),
            literals_or_none(forced),
            templates_or_none(dynamic),
            limit,
            offset,
            dry_run,
            out,
        ),
        out matches Ok((session, _)) ==> sound(session@),
{
    let records = match extract_root_objects(json_data, json_root) {
        Ok(records) => records,
        Err(error) => {
            return Err(BatchError::Path(error));
        },
    };
    let records = apply_window(records, offset, limit);
    if records.len() > u32::MAX as usize {
        return Err(BatchError::TooManyRecords);
    }
    let total: u32 = records.len() as u32;
    let defaults = or_empty(defaults);
    let forced = or_empty(forced);
    let dynamic = or_empty(dynamic);
    proof {
        assert(column_models(Seq::<ColumnInfo>::empty()) =~= Seq::<ColumnModel>::empty());
        assert(texts(Seq::<String>::empty()) =~= Seq::<Seq<char>>::empty());
    }
    let session = ImportSession {
        table_name: table_name.to_owned(),
        mapping,
        defaults,
        forced,
        dynamic,
        records,
        tally: Tally {
            phase: if dry_run {
                Phase::Done
            } else {
                Phase::Preparing
            },
            total,
            processed: 0,
            succeeded: 0,
            failed: 0,
        },
        columns: Vec::new(),
        unique_columns: Vec::new(),
        targets: Vec::new(),
    };
    proof {
        assert(column_models(session.columns@) =~= Seq::<ColumnModel>::empty());
        assert(texts(session.unique_columns@) =~= Seq::<Seq<char>>::empty());
        assert(texts(session.targets@) =~= Seq::<Seq<char>>::empty());
        assert(literal_models(Seq::<ColumnLiteral>::empty()) =~= Seq::<LiteralModel>::empty());
        assert(template_models(Seq::<ColumnTemplate>::empty()) =~= Seq::<TemplateModel>::empty());
    }
    let report = snapshot(total, 0, 0, 0, "Préparation...");
    let action = if dry_run {
        ImportAction::Finish(Ok(snapshot(total, 0, 0, 0, "Simulation terminée (dry run)")))
    } else {
        ImportAction::Connect
    };
    Ok((session, ImportStep { report: Some(report), action }))
}

/// Starts the import that `config` describes on the document `json_data`.
pub fn import_json_to_sqlite(config: ImportConfig, json_data: &JsonValue) -> (out: Result<
    (ImportSession, ImportStep),
    BatchError,
>)
    ensures
        import_start(
            json_data@,
            config.json_root@,
            config.table_name@,
            rule_models(config.mapping@),
            literals_or_none(config.defaults),
            literals_or_none(config.forced),
            templates_or_none(config.dynamic),
            config.limit,
            config.offset,
            config.dry_run,
            out,
        ),
        out matches Ok((session, _)) ==> sound(session@),
{
    insert_json_data(
        json_data,
        config.json_root.as_str(),
        config.table_name.as_str(),
        config.mapping,
        config.defaults,
        config.forced,
        config.dynamic,
        config.limit,
        config.offset,
        config.dry_run,
    )
}

impl ImportSession {
    #[verifier::type_invariant]
    spec fn holds(self) -> bool {
        sound(self@)
    }

    /// The phase that the import is in.
    pub fn phase(&self) -> (phase: Phase)
        ensures
            phase == self@.phase,
    {
        self.tally.phase
    }

    /// The table that the import writes to.
    pub fn table_name(&self) -> (name: &String)
        ensures
            name@ == self@.table,
    {
        &self.table_name
    }

    /// A snapshot of the counters with the given message.
    pub fn progress(&self, status: &str) -> (progress: ImportProgress)
        ensures
            progress@ == snapshot_of(self@, status@),
    {
        snapshot(
            self.tally.total,
            self.tally.processed,
            self.tally.succeeded,
            self.tally.failed,
            status,
        )
    }

    fn fail(&mut self, error: BatchError) -> (step: ImportStep)
        ensures
            final(self)@ == (ImportModel { phase: Phase::Failed, ..old(self)@ }),
            ends_with(step, error@),
    {
        proof {
            use_type_invariant(&*self);
        }
        self.tally = Tally { phase: Phase::Failed, ..self.tally };
        ImportStep { report: None, action: ImportAction::Finish(Err(error)) }
    }

    fn next_action(&self) -> (action: ImportAction)
        requires
            self@.phase == Phase::Inserting || self@.phase == Phase::Committing,
        ensures
            proceeds(action, self@),
    {
        proof {
            use_type_invariant(self);
        }
        if self.tally.processed < self.tally.total {
            let index: usize = self.tally.processed as usize;
            let row = synthesize(
                &self.records[index],
                index,
                &self.mapping,
                &self.defaults,
                &self.forced,
                &self.dynamic,
                &self.columns,
                &self.unique_columns,
            );
            let values = parameters(&row, &self.targets);
            proof {
                assert(models(self.records@)[index as int] == self.records@[index as int]@);
                assert(synthesized(
                    self@.records[self@.processed as int],
                    row@,
                    self@.processed,
                    plan_of(self@),
                ));
            }
            ImportAction::Insert { parameters: values }
        } else {
            ImportAction::Commit
        }
    }

    fn on_connected(&mut self) -> (step: ImportStep)
        requires
            old(self)@.phase == Phase::Preparing,
        ensures
            import_step(old(self)@, ImportEvent::Connected, final(self)@, step),
    {
        let columns_statement = match table_info_query(self.table_name.as_str()) {
            Ok(text) => text,
            Err(error) => {
                return self.fail(BatchError::Schema(error));
            },
        };
        let indexes_statement = match index_list_query(self.table_name.as_str()) {
            Ok(text) => text,
            Err(error) => {
                return self.fail(BatchError::Schema(error));
            },
        };
        proof {
            use_type_invariant(&*self);
        }
        self.tally = Tally { phase: Phase::AnalyzingSchema, ..self.tally };
        let report = self.progress("Analyse de la structure de la table...");
        ImportStep {
            report: Some(report),
            action: ImportAction::ReadSchema { columns_statement, indexes_statement },
        }
    }

    fn on_schema(&mut self, rows: &Vec<ColumnRow>, indexes: &Vec<IndexRow>) -> (step: ImportStep)
        requires
            old(self)@.phase == Phase::AnalyzingSchema,
        ensures
            schema_step(
                old(self)@,
                columns_of(column_row_models(rows@)),
                unique_columns_of(index_models(indexes@)),
                final(self)@,
                step,
            ),
    {
        let columns = match get_table_columns(rows, self.table_name.as_str()) {
            Ok(columns) => columns,
            Err(error) => {
                return self.fail(BatchError::Schema(error));
            },
        };
        let unique_columns = get_unique_columns(indexes);
        let targets = columns_to_include(
            &self.mapping,
            &self.defaults,
            &self.forced,
            &self.dynamic,
            &columns,
        );
        let missing = missing_required_columns(&columns, &targets);
        if missing.len() > 0 {
            assert(texts(missing@).len() == missing@.len());
            return self.fail(BatchError::Schema(SchemaError::RequiredColumnsUncovered(missing)));
        }
        assert(texts(missing@).len() == missing@.len());
        match find_invalid(&targets) {
            Some(name) => {
                return self.fail(BatchError::Schema(SchemaError::InvalidIdentifier(name)));
            },
            None => {},
        }
        let statement = build_insert_statement(self.table_name.as_str(), &targets);
        proof {
            use_type_invariant(&*self);
        }
        self.columns = columns;
        self.unique_columns = unique_columns;
        self.targets = targets;
        self.tally = Tally { phase: Phase::PreparingStatement, ..self.tally };
        let report = self.progress("Préparation de l'insertion...");
        ImportStep { report: Some(report), action: ImportAction::Prepare { statement } }
    }

    fn on_prepared(&mut self) -> (step: ImportStep)
        requires
            old(self)@.phase == Phase::PreparingStatement,
        ensures
            import_step(old(self)@, ImportEvent::Prepared, final(self)@, step),
    {
        proof {
            use_type_invariant(&*self);
        }
        self.tally = Tally {
            phase: if self.tally.total == 0 {
                Phase::Committing
            } else {
                Phase::Inserting
            },
            ..self.tally
        };
        let report = self.progress("Insertion des données...");
        let action = self.next_action();
        ImportStep { report: Some(report), action }
    }

    fn on_row(&mut self, inserted: bool) -> (step: ImportStep)
        requires
            old(self)@.phase == Phase::Inserting,
        ensures
            final(self)@ == (ImportModel {
                phase: if old(self)@.processed + 1 == old(self)@.total {
                    Phase::Committing
                } else {
                    Phase::Inserting
                },
                processed: old(self)@.processed + 1,
                succeeded: if inserted {
                    old(self)@.succeeded + 1
                } else {
                    old(self)@.succeeded
                },
                failed: if inserted {
                    old(self)@.failed
                } else {
                    old(self)@.failed + 1
                },
                ..old(self)@
            }),
            counted(step, final(self)@),
    {
        proof {
            use_type_invariant(&*self);
        }
        let processed: u32 = self.tally.processed + 1;
        self.tally = Tally {
            phase: if processed == self.tally.total {
                Phase::Committing
            } else {
                Phase::Inserting
            },
            total: self.tally.total,
            processed,
            succeeded: if inserted {
                self.tally.succeeded + 1
            } else {
                self.tally.succeeded
            },
            failed: if inserted {
                self.tally.failed
            } else {
                self.tally.failed + 1
            },
        };
        let report = if should_report(self.tally.processed, self.tally.total) {
            let status = advance_message(self.tally.processed, self.tally.total);
            Some(self.progress(status.as_str()))
        } else {
            None
        };
        let action = self.next_action();
        ImportStep { report, action }
    }

    fn on_committed(&mut self) -> (step: ImportStep)
        requires
            old(self)@.phase == Phase::Committing,
        ensures
            import_step(old(self)@, ImportEvent::Committed, final(self)@, step),
    {
        proof {
            use_type_invariant(&*self);
        }
        self.tally = Tally { phase: Phase::Done, ..self.tally };
        let status = import_message(self.tally.succeeded, self.tally.failed);
        let progress = self.progress(status.as_str());
        ImportStep { report: None, action: ImportAction::Finish(Ok(progress)) }
    }

    /// Takes what the database reported and decides how the import goes on.
    pub fn advance(&mut self, event: ImportEvent) -> (step: ImportStep)
        ensures
            import_step(old(self)@, event, final(self)@, step),
            sound(old(self)@),
            sound(final(self)@),
    {
        proof {
            use_type_invariant(&*self);
        }
        let step = match self.tally.phase {
            Phase::Preparing => match event {
                ImportEvent::Connected => self.on_connected(),
                ImportEvent::ConnectionFailed(message) => self.fail(
                    BatchError::Connection(message),
                ),
                _ => self.fail(BatchError::UnexpectedEvent),
            },
            Phase::AnalyzingSchema => match event {
                ImportEvent::SchemaRead { columns, indexes } => self.on_schema(&columns, &indexes),
                ImportEvent::SchemaFailed(message) => self.fail(BatchError::SchemaRead(message)),
                _ => self.fail(BatchError::UnexpectedEvent),
            },
            Phase::PreparingStatement => match event {
                ImportEvent::Prepared => self.on_prepared(),
                ImportEvent::PrepareFailed(message) => self.fail(BatchError::Prepare(message)),
                _ => self.fail(BatchError::UnexpectedEvent),
            },
            Phase::Inserting => match event {
                ImportEvent::RowInserted => self.on_row(true),
                ImportEvent::RowFailed(_) => self.on_row(false),
                _ => self.fail(BatchError::UnexpectedEvent),
            },
            Phase::Committing => match event {
                ImportEvent::Committed => self.on_committed(),
                ImportEvent::CommitFailed(message) => self.fail(BatchError::Commit(message)),
                _ => self.fail(BatchError::UnexpectedEvent),
            },
            _ => self.fail(BatchError::UnexpectedEvent),
        };
        proof {
            use_type_invariant(&*self);
        }
        step
    }
}

} // verus!
