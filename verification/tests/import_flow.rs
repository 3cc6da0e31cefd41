use json_to_sqlite::failure::BatchError;
use json_to_sqlite::insert::apply_window;
use json_to_sqlite::insert::build_insert_statement;
use json_to_sqlite::insert::columns_to_include;
use json_to_sqlite::insert::find_invalid;
use json_to_sqlite::insert::import_json_to_sqlite;
use json_to_sqlite::insert::insert_json_data;
use json_to_sqlite::insert::missing_required_columns;
use json_to_sqlite::insert::ImportAction;
use json_to_sqlite::insert::ImportConfig;
use json_to_sqlite::insert::ImportEvent;
use json_to_sqlite::insert::ImportSession;
use json_to_sqlite::insert::ImportStep;
use json_to_sqlite::path::MappingRule;
use json_to_sqlite::path::PathError;
use json_to_sqlite::progress::should_report;
use json_to_sqlite::progress::ImportProgress;
use json_to_sqlite::progress::Phase;
use json_to_sqlite::schema::index_info_query;
use json_to_sqlite::schema::ColumnInfo;
use json_to_sqlite::schema::ColumnRow;
use json_to_sqlite::schema::IndexColumn;
use json_to_sqlite::schema::IndexRow;
use json_to_sqlite::schema::SchemaError;
use json_to_sqlite::storage::parameters;
use json_to_sqlite::storage::SqlValue;
use json_to_sqlite::synth::ColumnLiteral;
use json_to_sqlite::synth::ColumnTemplate;
use json_to_sqlite::value::JsonMember;
use json_to_sqlite::value::JsonNumber;
use json_to_sqlite::value::JsonValue;
use rusqlite::params_from_iter;
use rusqlite::Connection;

fn number(i: i64) -> JsonValue {
    JsonValue::Number(JsonNumber::Integer(i))
}

fn text(s: &str) -> JsonValue {
    JsonValue::String(s.to_string())
}

fn object(entries: Vec<(&str, JsonValue)>) -> JsonValue {
    JsonValue::Object(
        entries
            .into_iter()
            .map(|(key, value)| JsonMember { key: key.to_string(), value })
            .collect(),
    )
}

fn rule(path: &str, column: &str) -> MappingRule {
    MappingRule { path: path.to_string(), column: column.to_string() }
}

fn literal(column: &str, value: JsonValue) -> ColumnLiteral {
    ColumnLiteral { column: column.to_string(), value }
}

fn template(column: &str, template: &str) -> ColumnTemplate {
    ColumnTemplate { column: column.to_string(), template: template.to_string() }
}

fn column(name: &str, data_type: &str, not_null: bool, default: Option<&str>) -> ColumnInfo {
    ColumnInfo {
        name: name.to_string(),
        data_type: data_type.to_string(),
        not_null,
        primary_key: false,
        default_value: default.map(str::to_string),
    }
}

fn listed(name: &str, data_type: &str, not_null: i32) -> ColumnRow {
    ColumnRow {
        name: name.to_string(),
        data_type: data_type.to_string(),
        not_null,
        default_value: None,
        primary_key: 0,
    }
}

fn progress(total: u32, processed: u32, succeeded: u32, failed: u32, status: &str) -> ImportProgress {
    ImportProgress { total, processed, succeeded, failed, status: status.to_string() }
}

fn rows_document() -> JsonValue {
    object(vec![(
        "rows",
        JsonValue::Array(vec![
            object(vec![("id", number(1)), ("name", text("a"))]),
            object(vec![("id", number(2)), ("name", text("b"))]),
        ]),
    )])
}

fn numbered_document(count: i64) -> JsonValue {
    JsonValue::Array((0..count).map(|i| object(vec![("id", number(i))])).collect())
}

fn start(
    document: &JsonValue,
    root: &str,
    table: &str,
    mapping: Vec<MappingRule>,
) -> (ImportSession, ImportStep) {
    insert_json_data(document, root, table, mapping, None, None, None, None, None, false).unwrap()
}

fn to_sql(value: &SqlValue) -> rusqlite::types::Value {
    match value {
        SqlValue::Null => rusqlite::types::Value::Null,
        SqlValue::Integer(whole) => rusqlite::types::Value::Integer(*whole),
        SqlValue::Real(literal) => rusqlite::types::Value::Real(literal.parse::<f64>().unwrap()),
        SqlValue::Text(text) => rusqlite::types::Value::Text(text.clone()),
    }
}

fn read_columns(conn: &Connection, statement: &str) -> Vec<ColumnRow> {
    let mut stmt = conn.prepare(statement).unwrap();
    let rows = stmt
        .query_map([], |row| {
            Ok(ColumnRow {
                name: row.get(1)?,
                data_type: row.get(2)?,
                not_null: row.get(3)?,
                default_value: row.get(4)?,
                primary_key: row.get(5)?,
            })
        })
        .unwrap();
    rows.map(Result::unwrap).collect()
}

fn read_indexes(conn: &Connection, statement: &str) -> Vec<IndexRow> {
    let mut stmt = conn.prepare(statement).unwrap();
    let listed: Vec<(String, Option<String>)> = stmt
        .query_map([], |row| Ok((row.get(0)?, row.get(1)?)))
        .unwrap()
        .map(Result::unwrap)
        .collect();
    listed
        .into_iter()
        .map(|(name, sql)| {
            let mut members = conn.prepare(&index_info_query(&name)).unwrap();
            let columns = members
                .query_map([], |row| Ok(IndexColumn { position: row.get(0)?, name: row.get(2)? }))
                .unwrap()
                .map(Result::unwrap)
                .collect();
            IndexRow { name, sql, columns }
        })
        .collect()
}

fn run_import(
    conn: &Connection,
    mut session: ImportSession,
    first: ImportStep,
    reports: &mut Vec<ImportProgress>,
) -> Result<ImportProgress, BatchError> {
    reports.extend(first.report);
    let mut action = first.action;
    let tx = conn.unchecked_transaction().unwrap();
    {
    let mut prepared = None;
    loop {
        let event = match action {
            ImportAction::Connect => ImportEvent::Connected,
            ImportAction::ReadSchema { columns_statement, indexes_statement } => {
                ImportEvent::SchemaRead {
                    columns: read_columns(conn, &columns_statement),
                    indexes: read_indexes(conn, &indexes_statement),
                }
            }
            ImportAction::Prepare { statement } => match tx.prepare(&statement) {
                Ok(stmt) => {
                    prepared = Some(stmt);
                    ImportEvent::Prepared
                }
                Err(e) => ImportEvent::PrepareFailed(e.to_string()),
            },
            ImportAction::Insert { parameters } => {
                let values: Vec<rusqlite::types::Value> = parameters.iter().map(to_sql).collect();
                match prepared.as_mut().unwrap().execute(params_from_iter(values.iter())) {
                    Ok(_) => ImportEvent::RowInserted,
                    Err(e) => ImportEvent::RowFailed(e.to_string()),
                }
            }
            ImportAction::Commit => break,
            ImportAction::Finish(result) => {
                return result.map(|last| {
                    reports.push(last.clone());
                    last
                });
            }
        };
        let step = session.advance(event);
        reports.extend(step.report);
        action = step.action;
    }
    }
    let event = match tx.commit() {
        Ok(()) => ImportEvent::Committed,
        Err(e) => ImportEvent::CommitFailed(e.to_string()),
    };
    let step = session.advance(event);
    reports.extend(step.report);
    match step.action {
        ImportAction::Finish(result) => result.map(|last| {
            reports.push(last.clone());
            last
        }),
        other => panic!("the import did not finish: {:?}", other),
    }
}

fn labels(conn: &Connection) -> Vec<(i64, Option<String>)> {
    let mut stmt = conn.prepare("SELECT pk, label FROM items ORDER BY pk").unwrap();
    let rows = stmt.query_map([], |row| Ok((row.get(0)?, row.get(1)?))).unwrap();
    rows.map(Result::unwrap).collect()
}

#[test]
fn offset_and_limit_select_a_window() {
    let records: Vec<JsonValue> = (0..10).map(number).collect();
    assert_eq!(
        apply_window(records.clone(), Some(2), Some(3)),
        vec![number(2), number(3), number(4)]
    );
    assert_eq!(apply_window(records.clone(), None, None), records);
    assert_eq!(apply_window(records.clone(), Some(0), Some(0)), records);
    assert_eq!(apply_window(records.clone(), Some(7), None), vec![number(7), number(8), number(9)]);
    assert_eq!(apply_window(records.clone(), None, Some(2)), vec![number(0), number(1)]);
    assert_eq!(apply_window(records.clone(), Some(9), Some(5)), vec![number(9)]);
    assert_eq!(apply_window(records.clone(), None, Some(10)), records);
    assert_eq!(apply_window(records.clone(), None, Some(11)), records);
}

#[test]
fn an_offset_at_or_beyond_the_end_drops_nothing() {
    let records: Vec<JsonValue> = (0..10).map(number).collect();
    assert_eq!(apply_window(records.clone(), Some(10), None), records);
    assert_eq!(apply_window(records.clone(), Some(25), None), records);
    assert_eq!(apply_window(records.clone(), Some(10), Some(3)), vec![number(0), number(1), number(2)]);
    assert_eq!(apply_window(vec![], Some(4), Some(2)), vec![]);
}

#[test]
fn the_window_fixes_the_total() {
    let document = numbered_document(10);
    let (_, step) = insert_json_data(
        &document, "", "items", vec![rule("id", "pk")], None, None, None, Some(3), Some(2), true,
    )
    .unwrap();
    assert_eq!(step.report, Some(progress(3, 0, 0, 0, "Préparation...")));
    let (_, step) = insert_json_data(
        &document, "", "items", vec![rule("id", "pk")], None, None, None, None, Some(10), true,
    )
    .unwrap();
    assert_eq!(step.report, Some(progress(10, 0, 0, 0, "Préparation...")));
}

#[test]
fn target_columns_are_those_with_a_value_that_exist() {
    let columns = vec![
        column("pk", "INTEGER", false, None),
        column("label", "TEXT", false, None),
        column("note", "TEXT", false, None),
        column("stamp", "TEXT", false, None),
        column("unused", "TEXT", false, None),
    ];
    let targets = columns_to_include(
        &vec![rule("id", "pk"), rule("name", "label"), rule("other", "pk"), rule("x", "ghost")],
        &vec![literal("note", text("n")), literal("label", text("l"))],
        &vec![literal("stamp", text("s")), literal("nowhere", text("s"))],
        &vec![template("note", "t"), template("stamp", "t")],
        &columns,
    );
    assert_eq!(targets, vec!["pk", "label", "note", "stamp"]);
    assert_eq!(columns_to_include(&vec![], &vec![], &vec![], &vec![], &columns), Vec::<String>::new());
}

#[test]
fn required_columns_without_a_value_are_listed() {
    let columns = vec![
        column("pk", "INTEGER", true, None),
        column("label", "TEXT", true, None),
        column("created", "TEXT", true, Some("CURRENT_TIMESTAMP")),
        column("note", "TEXT", false, None),
        column("code", "TEXT", true, None),
    ];
    let targets = vec!["pk".to_string(), "note".to_string()];
    assert_eq!(missing_required_columns(&columns, &targets), vec!["label", "code"]);
    let all = vec!["pk".to_string(), "label".to_string(), "code".to_string()];
    assert_eq!(missing_required_columns(&columns, &all), Vec::<String>::new());
}

#[test]
fn the_insert_statement_names_every_target_column() {
    let targets = vec!["pk".to_string(), "label".to_string(), "note".to_string()];
    assert_eq!(
        build_insert_statement("items", &targets),
        "INSERT INTO items (pk, label, note) VALUES (?, ?, ?)"
    );
    assert_eq!(
        build_insert_statement("items", &vec!["pk".to_string()]),
        "INSERT INTO items (pk) VALUES (?)"
    );
    assert_eq!(build_insert_statement("items", &vec![]), "INSERT INTO items () VALUES ()");
}

#[test]
fn the_first_invalid_name_is_found() {
    let names = vec!["ok".to_string(), "not ok".to_string(), "also-bad".to_string()];
    assert_eq!(find_invalid(&names), Some("not ok".to_string()));
    assert_eq!(find_invalid(&vec!["a".to_string(), "b_2".to_string()]), None);
    assert_eq!(find_invalid(&vec![]), None);
}

#[test]
fn parameters_follow_the_target_columns() {
    let record = object(vec![("id", number(1)), ("tags", JsonValue::Array(vec![text("x")]))]);
    let row = json_to_sqlite::path::apply_mapping(
        &record,
        &vec![rule("id", "pk"), rule("tags", "tags"), rule("missing", "gone")],
    );
    let columns = vec!["tags".to_string(), "gone".to_string(), "pk".to_string(), "other".to_string()];
    assert_eq!(
        parameters(&row, &columns),
        vec![
            SqlValue::Text("[\"x\"]".to_string()),
            SqlValue::Null,
            SqlValue::Integer(1),
            SqlValue::Null,
        ]
    );
}

#[test]
fn a_snapshot_is_due_at_every_tenth_record_and_at_the_last() {
    assert!(should_report(10, 25));
    assert!(should_report(20, 25));
    assert!(should_report(25, 25));
    assert!(should_report(3, 3));
    assert!(should_report(0, 5));
    assert!(!should_report(1, 25));
    assert!(!should_report(9, 25));
    assert!(!should_report(11, 25));
    assert!(!should_report(24, 25));
}

#[test]
fn a_dry_run_is_over_at_once() {
    let config = ImportConfig {
        json_path: "data.json".to_string(),
        db_path: "data.db".to_string(),
        json_root: "rows[]".to_string(),
        table_name: "items".to_string(),
        mapping: vec![rule("id", "pk")],
        defaults: None,
        forced: None,
        dynamic: None,
        limit: None,
        offset: None,
        dry_run: true,
    };
    let (session, step) = import_json_to_sqlite(config, &rows_document()).unwrap();
    assert_eq!(session.phase(), Phase::Done);
    assert_eq!(step.report, Some(progress(2, 0, 0, 0, "Préparation...")));
    assert_eq!(
        step.action,
        ImportAction::Finish(Ok(progress(2, 0, 0, 0, "Simulation terminée (dry run)")))
    );
}

#[test]
fn an_import_starts_by_asking_for_the_database() {
    let (session, step) = start(&rows_document(), "rows[]", "items", vec![rule("id", "pk")]);
    assert_eq!(session.phase(), Phase::Preparing);
    assert_eq!(session.table_name(), "items");
    assert_eq!(session.progress("now"), progress(2, 0, 0, 0, "now"));
    assert_eq!(step.report, Some(progress(2, 0, 0, 0, "Préparation...")));
    assert_eq!(step.action, ImportAction::Connect);
}

#[test]
fn a_root_that_does_not_resolve_ends_the_import_before_it_starts() {
    let out = insert_json_data(
        &rows_document(), "nothing[]", "items", vec![], None, None, None, None, None, false,
    );
    assert_eq!(
        out.err(),
        Some(BatchError::Path(PathError::MissingProperty("nothing".to_string())))
    );
    let out = insert_json_data(&number(1), "", "items", vec![], None, None, None, None, None, true);
    assert_eq!(out.err(), Some(BatchError::Path(PathError::RootNotContainer)));
}

#[test]
fn a_failed_connection_ends_the_import() {
    let (mut session, _) = start(&rows_document(), "rows[]", "items", vec![rule("id", "pk")]);
    let step = session.advance(ImportEvent::ConnectionFailed("locked".to_string()));
    assert_eq!(step.report, None);
    assert_eq!(step.action, ImportAction::Finish(Err(BatchError::Connection("locked".to_string()))));
    assert_eq!(session.phase(), Phase::Failed);
    let step = session.advance(ImportEvent::Connected);
    assert_eq!(step.action, ImportAction::Finish(Err(BatchError::UnexpectedEvent)));
}

#[test]
fn a_table_name_that_is_no_identifier_is_refused() {
    let (mut session, _) = start(&rows_document(), "rows[]", "items; DROP TABLE x", vec![rule("id", "pk")]);
    let step = session.advance(ImportEvent::Connected);
    assert_eq!(
        step.action,
        ImportAction::Finish(Err(BatchError::Schema(SchemaError::InvalidIdentifier(
            "items; DROP TABLE x".to_string()
        ))))
    );
    assert_eq!(session.phase(), Phase::Failed);
}

#[test]
fn the_schema_is_read_with_the_statements_of_the_table() {
    let (mut session, _) = start(&rows_document(), "rows[]", "items", vec![rule("id", "pk")]);
    let step = session.advance(ImportEvent::Connected);
    assert_eq!(step.report, Some(progress(2, 0, 0, 0, "Analyse de la structure de la table...")));
    assert_eq!(
        step.action,
        ImportAction::ReadSchema {
            columns_statement: "SELECT * FROM pragma_table_info('items') ORDER BY cid".to_string(),
            indexes_statement:
                "SELECT name, sql FROM sqlite_master WHERE type='index' AND tbl_name='items'"
                    .to_string(),
        }
    );
    assert_eq!(session.phase(), Phase::AnalyzingSchema);
}

#[test]
fn a_missing_table_ends_the_import() {
    let (mut session, _) = start(&rows_document(), "rows[]", "items", vec![rule("id", "pk")]);
    session.advance(ImportEvent::Connected);
    let step = session.advance(ImportEvent::SchemaRead { columns: vec![], indexes: vec![] });
    assert_eq!(
        step.action,
        ImportAction::Finish(Err(BatchError::Schema(SchemaError::TableNotFound("items".to_string()))))
    );
}

#[test]
fn an_unreadable_schema_ends_the_import() {
    let (mut session, _) = start(&rows_document(), "rows[]", "items", vec![rule("id", "pk")]);
    session.advance(ImportEvent::Connected);
    let step = session.advance(ImportEvent::SchemaFailed("disk".to_string()));
    assert_eq!(step.action, ImportAction::Finish(Err(BatchError::SchemaRead("disk".to_string()))));
}

#[test]
fn an_uncovered_required_column_ends_the_import() {
    let (mut session, _) = start(&rows_document(), "rows[]", "items", vec![rule("id", "pk")]);
    session.advance(ImportEvent::Connected);
    let step = session.advance(ImportEvent::SchemaRead {
        columns: vec![listed("pk", "INTEGER", 0), listed("label", "TEXT", 1), listed("code", "TEXT", 1)],
        indexes: vec![],
    });
    assert_eq!(step.report, None);
    assert_eq!(
        step.action,
        ImportAction::Finish(Err(BatchError::Schema(SchemaError::RequiredColumnsUncovered(vec![
            "label".to_string(),
            "code".to_string()
        ]))))
    );
    assert_eq!(session.phase(), Phase::Failed);
}

#[test]
fn a_target_column_that_is_no_identifier_is_refused() {
    let (mut session, _) = start(&rows_document(), "rows[]", "items", vec![rule("id", "my pk")]);
    session.advance(ImportEvent::Connected);
    let step = session.advance(ImportEvent::SchemaRead {
        columns: vec![listed("my pk", "INTEGER", 0)],
        indexes: vec![],
    });
    assert_eq!(
        step.action,
        ImportAction::Finish(Err(BatchError::Schema(SchemaError::InvalidIdentifier(
            "my pk".to_string()
        ))))
    );
}

#[test]
fn the_statement_is_prepared_for_the_target_columns() {
    let mapping = vec![rule("id", "pk"), rule("name", "label"), rule("x", "ghost")];
    let (mut session, _) = start(&rows_document(), "rows[]", "items", mapping);
    session.advance(ImportEvent::Connected);
    let step = session.advance(ImportEvent::SchemaRead {
        columns: vec![listed("pk", "INTEGER", 0), listed("label", "TEXT", 0)],
        indexes: vec![],
    });
    assert_eq!(step.report, Some(progress(2, 0, 0, 0, "Préparation de l'insertion...")));
    assert_eq!(
        step.action,
        ImportAction::Prepare { statement: "INSERT INTO items (pk, label) VALUES (?, ?)".to_string() }
    );
    assert_eq!(session.phase(), Phase::PreparingStatement);
    let failed = session.advance(ImportEvent::PrepareFailed("syntax".to_string()));
    assert_eq!(failed.action, ImportAction::Finish(Err(BatchError::Prepare("syntax".to_string()))));
}

#[test]
fn every_record_is_counted_and_a_failure_does_not_stop_the_batch() {
    let mapping = vec![rule("id", "pk"), rule("name", "label")];
    let (mut session, _) = start(&rows_document(), "rows[]", "items", mapping);
    session.advance(ImportEvent::Connected);
    session.advance(ImportEvent::SchemaRead {
        columns: vec![listed("pk", "INTEGER", 0), listed("label", "TEXT", 0)],
        indexes: vec![],
    });
    let step = session.advance(ImportEvent::Prepared);
    assert_eq!(step.report, Some(progress(2, 0, 0, 0, "Insertion des données...")));
    assert_eq!(
        step.action,
        ImportAction::Insert { parameters: vec![SqlValue::Integer(1), SqlValue::Text("a".to_string())] }
    );
    assert_eq!(session.phase(), Phase::Inserting);
    let step = session.advance(ImportEvent::RowFailed("constraint".to_string()));
    assert_eq!(step.report, None);
    assert_eq!(
        step.action,
        ImportAction::Insert { parameters: vec![SqlValue::Integer(2), SqlValue::Text("b".to_string())] }
    );
    let step = session.advance(ImportEvent::RowInserted);
    assert_eq!(step.report, Some(progress(2, 2, 1, 1, "Progression: 2/2 objets traités")));
    assert_eq!(step.action, ImportAction::Commit);
    assert_eq!(session.phase(), Phase::Committing);
    let step = session.advance(ImportEvent::Committed);
    assert_eq!(step.report, None);
    assert_eq!(
        step.action,
        ImportAction::Finish(Ok(progress(2, 2, 1, 1, "Importation terminée. Succès: 1, Échecs: 1")))
    );
    assert_eq!(session.phase(), Phase::Done);
}

#[test]
fn a_failed_commit_ends_the_import_with_an_error() {
    let (mut session, _) = start(&numbered_document(1), "", "items", vec![rule("id", "pk")]);
    session.advance(ImportEvent::Connected);
    session.advance(ImportEvent::SchemaRead { columns: vec![listed("pk", "INTEGER", 0)], indexes: vec![] });
    session.advance(ImportEvent::Prepared);
    let step = session.advance(ImportEvent::RowInserted);
    assert_eq!(step.action, ImportAction::Commit);
    let step = session.advance(ImportEvent::CommitFailed("full".to_string()));
    assert_eq!(step.report, None);
    assert_eq!(step.action, ImportAction::Finish(Err(BatchError::Commit("full".to_string()))));
    assert_eq!(session.phase(), Phase::Failed);
}

#[test]
fn an_import_without_records_commits_at_once() {
    let (mut session, _) = start(&JsonValue::Array(vec![]), "", "items", vec![rule("id", "pk")]);
    session.advance(ImportEvent::Connected);
    session.advance(ImportEvent::SchemaRead { columns: vec![listed("pk", "INTEGER", 0)], indexes: vec![] });
    let step = session.advance(ImportEvent::Prepared);
    assert_eq!(step.action, ImportAction::Commit);
    let step = session.advance(ImportEvent::Committed);
    assert_eq!(
        step.action,
        ImportAction::Finish(Ok(progress(0, 0, 0, 0, "Importation terminée. Succès: 0, Échecs: 0")))
    );
}

#[test]
fn an_event_out_of_turn_ends_the_import() {
    let (mut session, _) = start(&rows_document(), "rows[]", "items", vec![rule("id", "pk")]);
    let step = session.advance(ImportEvent::RowInserted);
    assert_eq!(step.action, ImportAction::Finish(Err(BatchError::UnexpectedEvent)));
    assert_eq!(session.phase(), Phase::Failed);
    let (mut session, _) = start(&rows_document(), "rows[]", "items", vec![rule("id", "pk")]);
    session.advance(ImportEvent::Connected);
    let step = session.advance(ImportEvent::Committed);
    assert_eq!(step.action, ImportAction::Finish(Err(BatchError::UnexpectedEvent)));
}

#[test]
fn snapshots_come_at_every_tenth_record_and_at_the_last() {
    let (mut session, _) = start(&numbered_document(25), "", "items", vec![rule("id", "pk")]);
    session.advance(ImportEvent::Connected);
    session.advance(ImportEvent::SchemaRead { columns: vec![listed("pk", "INTEGER", 0)], indexes: vec![] });
    let mut step = session.advance(ImportEvent::Prepared);
    let mut reported = Vec::new();
    let mut previous = 0;
    while let ImportAction::Insert { parameters } = &step.action {
        assert_eq!(parameters, &vec![SqlValue::Integer(previous as i64)]);
        step = session.advance(ImportEvent::RowInserted);
        previous += 1;
        if let Some(snapshot) = &step.report {
            assert_eq!(snapshot.processed, snapshot.succeeded + snapshot.failed);
            assert!(snapshot.processed <= snapshot.total);
            assert_eq!(snapshot.total, 25);
            reported.push(snapshot.processed);
        }
    }
    assert_eq!(previous, 25);
    assert_eq!(reported, vec![10, 20, 25]);
    assert_eq!(step.action, ImportAction::Commit);
}

#[test]
fn records_are_imported_into_a_table() {
    let conn = Connection::open_in_memory().unwrap();
    conn.execute_batch("CREATE TABLE items (pk INTEGER, label TEXT)").unwrap();
    let mapping = vec![rule("id", "pk"), rule("name", "label")];
    let (session, first) = start(&rows_document(), "rows[]", "items", mapping);
    let mut reports = Vec::new();
    let last = run_import(&conn, session, first, &mut reports).unwrap();
    assert_eq!(last, progress(2, 2, 2, 0, "Importation terminée. Succès: 2, Échecs: 0"));
    assert_eq!(labels(&conn), vec![(1, Some("a".to_string())), (2, Some("b".to_string()))]);
    let statuses: Vec<&str> = reports.iter().map(|report| report.status.as_str()).collect();
    assert_eq!(
        statuses,
        vec![
            "Préparation...",
            "Analyse de la structure de la table...",
            "Préparation de l'insertion...",
            "Insertion des données...",
            "Progression: 2/2 objets traités",
            "Importation terminée. Succès: 2, Échecs: 0",
        ]
    );
    for report in &reports {
        assert_eq!(report.total, 2);
        assert_eq!(report.processed, report.succeeded + report.failed);
    }
}

#[test]
fn a_mapped_null_gets_the_default() {
    let conn = Connection::open_in_memory().unwrap();
    conn.execute_batch("CREATE TABLE items (pk INTEGER, label TEXT)").unwrap();
    let document = JsonValue::Array(vec![object(vec![("id", number(1)), ("name", JsonValue::Null)])]);
    let (session, first) = insert_json_data(
        &document,
        "",
        "items",
        vec![rule("id", "pk"), rule("name", "label")],
        Some(vec![literal("label", text("dflt"))]),
        None,
        None,
        None,
        None,
        false,
    )
    .unwrap();
    let mut reports = Vec::new();
    let last = run_import(&conn, session, first, &mut reports).unwrap();
    assert_eq!((last.total, last.succeeded, last.failed), (1, 1, 0));
    assert_eq!(labels(&conn), vec![(1, Some("dflt".to_string()))]);
}

#[test]
fn the_database_lists_a_composite_key_and_its_unique_indexes() {
    let conn = Connection::open_in_memory().unwrap();
    conn.execute_batch(
        "CREATE TABLE t (a INTEGER, b INTEGER, c TEXT, PRIMARY KEY (a, b));
         CREATE TABLE u (a TEXT, b TEXT, c TEXT);
         CREATE UNIQUE INDEX ux ON u(b);
         CREATE INDEX unique_c ON u(c);",
    )
    .unwrap();
    let rows = read_columns(&conn, &json_to_sqlite::schema::table_info_query("t").unwrap());
    let columns = json_to_sqlite::schema::get_table_columns(&rows, "t").unwrap();
    let flags: Vec<(&str, bool)> =
        columns.iter().map(|column| (column.name.as_str(), column.primary_key)).collect();
    assert_eq!(flags, vec![("a", true), ("b", true), ("c", false)]);
    let indexes = read_indexes(&conn, &json_to_sqlite::schema::index_list_query("u").unwrap());
    assert_eq!(json_to_sqlite::schema::get_unique_columns(&indexes), vec!["b"]);
}

#[test]
fn a_row_that_the_table_refuses_is_counted_as_failed() {
    let conn = Connection::open_in_memory().unwrap();
    conn.execute_batch("CREATE TABLE items (pk INTEGER PRIMARY KEY, label TEXT)").unwrap();
    let document = JsonValue::Array(vec![
        object(vec![("id", number(1)), ("name", text("a"))]),
        object(vec![("id", number(1)), ("name", text("again"))]),
        object(vec![("id", number(3)), ("name", text("c"))]),
    ]);
    let (session, first) = start(&document, "", "items", vec![rule("id", "pk"), rule("name", "label")]);
    let mut reports = Vec::new();
    let last = run_import(&conn, session, first, &mut reports).unwrap();
    assert_eq!(last, progress(3, 3, 2, 1, "Importation terminée. Succès: 2, Échecs: 1"));
    assert_eq!(labels(&conn), vec![(1, Some("a".to_string())), (3, Some("c".to_string()))]);
}

#[test]
fn a_table_that_does_not_exist_is_reported() {
    let conn = Connection::open_in_memory().unwrap();
    let (session, first) = start(&rows_document(), "rows[]", "items", vec![rule("id", "pk")]);
    let mut reports = Vec::new();
    assert_eq!(
        run_import(&conn, session, first, &mut reports),
        Err(BatchError::Schema(SchemaError::TableNotFound("items".to_string())))
    );
}

#[test]
fn overrides_and_backfill_reach_the_table() {
    let conn = Connection::open_in_memory().unwrap();
    conn.execute_batch(
        "CREATE TABLE items (pk INTEGER, label TEXT, serial INTEGER NOT NULL, source TEXT, tags TEXT, score REAL);
         CREATE UNIQUE INDEX items_serial ON items (serial);",
    )
    .unwrap();
    let document = JsonValue::Array(vec![
        object(vec![("id", number(1)), ("tags", JsonValue::Array(vec![text("x"), number(2)]))]),
        object(vec![("id", number(2)), ("name", text("b")), ("score", JsonValue::Number(JsonNumber::Decimal("2.5".to_string())))]),
    ]);
    let (session, first) = insert_json_data(
        &document,
        "",
        "items",
        vec![rule("id", "pk"), rule("name", "label"), rule("tags", "tags"), rule("score", "score")],
        Some(vec![literal("label", text("unnamed")), literal("serial", text("{{DYNAMIC}}"))]),
        Some(vec![literal("source", text("ignored"))]),
        Some(vec![template("source", "row {{INDEX}}")]),
        None,
        None,
        false,
    )
    .unwrap();
    let mut reports = Vec::new();
    let last = run_import(&conn, session, first, &mut reports).unwrap();
    assert_eq!((last.total, last.succeeded, last.failed), (2, 2, 0));
    let mut stmt = conn
        .prepare("SELECT pk, label, serial, source, tags, score FROM items ORDER BY pk")
        .unwrap();
    let rows: Vec<(i64, String, i64, String, Option<String>, Option<f64>)> = stmt
        .query_map([], |row| {
            Ok((row.get(0)?, row.get(1)?, row.get(2)?, row.get(3)?, row.get(4)?, row.get(5)?))
        })
        .unwrap()
        .map(Result::unwrap)
        .collect();
    assert_eq!(
        rows,
        vec![
            (1, "unnamed".to_string(), 1000, "row 0".to_string(), Some("[\"x\",2]".to_string()), None),
            (2, "b".to_string(), 1001, "row 1".to_string(), None, Some(2.5)),
        ]
    );
}

#[test]
fn a_unique_column_without_mapping_is_backfilled_when_it_is_a_target() {
    let conn = Connection::open_in_memory().unwrap();
    conn.execute_batch(
        "CREATE TABLE items (pk INTEGER, code INTEGER NOT NULL DEFAULT 0);
         CREATE UNIQUE INDEX items_code ON items (code);",
    )
    .unwrap();
    let (session, first) = insert_json_data(
        &numbered_document(3),
        "",
        "items",
        vec![rule("id", "pk"), rule("nothing", "code")],
        None,
        None,
        None,
        None,
        None,
        false,
    )
    .unwrap();
    let mut reports = Vec::new();
    let last = run_import(&conn, session, first, &mut reports).unwrap();
    assert_eq!((last.succeeded, last.failed), (3, 0));
    let mut stmt = conn.prepare("SELECT pk, code FROM items ORDER BY pk").unwrap();
    let rows: Vec<(i64, i64)> =
        stmt.query_map([], |row| Ok((row.get(0)?, row.get(1)?))).unwrap().map(Result::unwrap).collect();
    assert_eq!(rows, vec![(0, 1000), (1, 1001), (2, 1002)]);
}
