use json_to_sqlite::failure::BatchError;
use json_to_sqlite::path::apply_mapping;
use json_to_sqlite::path::MappingRule;
use json_to_sqlite::path::PathError;
use json_to_sqlite::progress::ImportProgress;
use json_to_sqlite::schema::ColumnRow;
use json_to_sqlite::schema::SchemaError;
use json_to_sqlite::storage::SqlValue;
use json_to_sqlite::update::build_check_statement;
use json_to_sqlite::update::build_update_statement;
use json_to_sqlite::update::is_key_mapped;
use json_to_sqlite::update::key_lookup_text;
use json_to_sqlite::update::missing_columns;
use json_to_sqlite::update::present_columns;
use json_to_sqlite::update::update_sqlite_from_json;
use json_to_sqlite::update::update_sqlite_from_json_data;
use json_to_sqlite::update::UpdateAction;
use json_to_sqlite::update::UpdateConfig;
use json_to_sqlite::update::UpdateEvent;
use json_to_sqlite::update::UpdatePhase;
use json_to_sqlite::update::UpdateSession;
use json_to_sqlite::update::UpdateStep;
use json_to_sqlite::value::JsonMember;
use json_to_sqlite::value::JsonNumber;
use json_to_sqlite::value::JsonValue;
use rusqlite::params_from_iter;
use rusqlite::Connection;

fn number(i: i64) -> JsonValue {
    JsonValue::Number(JsonNumber::Integer(i))
}

fn text(s: &str) -> JsonValue {
    JsonValue::String(s.to_string())
}

fn object(entries: Vec<(&str, JsonValue)>) -> JsonValue {
    JsonValue::Object(
        entries
            .into_iter()
            .map(|(key, value)| JsonMember { key: key.to_string(), value })
            .collect(),
    )
}

fn rule(path: &str, column: &str) -> MappingRule {
    MappingRule { path: path.to_string(), column: column.to_string() }
}

fn listed(name: &str, data_type: &str) -> ColumnRow {
    ColumnRow {
        name: name.to_string(),
        data_type: data_type.to_string(),
        not_null: 0,
        default_value: None,
        primary_key: 0,
    }
}

fn progress(total: u32, processed: u32, succeeded: u32, failed: u32, status: &str) -> ImportProgress {
    ImportProgress { total, processed, succeeded, failed, status: status.to_string() }
}

fn names(list: &[&str]) -> Vec<String> {
    list.iter().map(|name| name.to_string()).collect()
}

fn rows_document() -> JsonValue {
    object(vec![(
        "rows",
        JsonValue::Array(vec![
            object(vec![("id", number(1)), ("name", text("a"))]),
            object(vec![("id", number(2)), ("name", text("b"))]),
        ]),
    )])
}

fn mapping() -> Vec<MappingRule> {
    vec![rule("id", "pk"), rule("name", "label")]
}

fn start(document: &JsonValue, root: &str) -> (UpdateSession, UpdateStep) {
    update_sqlite_from_json_data(document, root, "items", "pk", names(&["label"]), mapping(), false)
        .unwrap()
}

fn started_on_records(document: &JsonValue, root: &str) -> (UpdateSession, UpdateStep) {
    let (mut session, _) = start(document, root);
    session.advance(UpdateEvent::Connected);
    session.advance(UpdateEvent::SchemaRead {
        columns: vec![listed("pk", "INTEGER"), listed("label", "TEXT")],
    });
    let step = session.advance(UpdateEvent::TransactionOpened);
    (session, step)
}

fn to_sql(value: &SqlValue) -> rusqlite::types::Value {
    match value {
        SqlValue::Null => rusqlite::types::Value::Null,
        SqlValue::Integer(whole) => rusqlite::types::Value::Integer(*whole),
        SqlValue::Real(literal) => rusqlite::types::Value::Real(literal.parse::<f64>().unwrap()),
        SqlValue::Text(text) => rusqlite::types::Value::Text(text.clone()),
    }
}

fn run_update(
    conn: &Connection,
    mut session: UpdateSession,
    first: UpdateStep,
    reports: &mut Vec<ImportProgress>,
) -> Result<ImportProgress, BatchError> {
    reports.extend(first.report);
    let mut action = first.action;
    let tx = conn.unchecked_transaction().unwrap();
    loop {
        let event = match action {
            UpdateAction::Connect => UpdateEvent::Connected,
            UpdateAction::ReadSchema { columns_statement } => {
                let mut stmt = conn.prepare(&columns_statement).unwrap();
                let columns = stmt
                    .query_map([], |row| {
                        Ok(ColumnRow {
                            name: row.get(1)?,
                            data_type: row.get(2)?,
                            not_null: row.get(3)?,
                            default_value: row.get(4)?,
                            primary_key: row.get(5)?,
                        })
                    })
                    .unwrap()
                    .map(Result::unwrap)
                    .collect();
                UpdateEvent::SchemaRead { columns }
            }
            UpdateAction::OpenTransaction => UpdateEvent::TransactionOpened,
            UpdateAction::Skip => UpdateEvent::Skipped,
            UpdateAction::CheckExists { statement, key } => {
                match tx.query_row(&statement, [&key], |row| row.get::<_, i64>(0)) {
                    Ok(count) => UpdateEvent::Counted(count),
                    Err(e) => UpdateEvent::CheckFailed(e.to_string()),
                }
            }
            UpdateAction::Update { statement, parameters } => {
                let values: Vec<rusqlite::types::Value> = parameters.iter().map(to_sql).collect();
                match tx.execute(&statement, params_from_iter(values.iter())) {
                    Ok(changed) => UpdateEvent::Updated(changed as u64),
                    Err(e) => UpdateEvent::UpdateFailed(e.to_string()),
                }
            }
            UpdateAction::Commit => break,
            UpdateAction::Finish(result) => {
                return result.map(|last| {
                    reports.push(last.clone());
                    last
                });
            }
        };
        let step = session.advance(event);
        reports.extend(step.report);
        action = step.action;
    }
    let event = match tx.commit() {
        Ok(()) => UpdateEvent::Committed,
        Err(e) => UpdateEvent::CommitFailed(e.to_string()),
    };
    let step = session.advance(event);
    reports.extend(step.report);
    match step.action {
        UpdateAction::Finish(result) => result.map(|last| {
            reports.push(last.clone());
            last
        }),
        other => panic!("the update did not finish: {:?}", other),
    }
}

fn table_with_two_rows() -> Connection {
    let conn = Connection::open_in_memory().unwrap();
    conn.execute_batch(
        "CREATE TABLE items (pk INTEGER, label TEXT);
         INSERT INTO items (pk, label) VALUES (1, 'old one');
         INSERT INTO items (pk, label) VALUES (2, 'old two');",
    )
    .unwrap();
    conn
}

fn labels(conn: &Connection) -> Vec<(i64, Option<String>)> {
    let mut stmt = conn.prepare("SELECT pk, label FROM items ORDER BY pk").unwrap();
    let rows = stmt.query_map([], |row| Ok((row.get(0)?, row.get(1)?))).unwrap();
    rows.map(Result::unwrap).collect()
}

#[test]
fn an_update_fails_at_once_when_the_key_is_no_mapping_target() {
    let out = update_sqlite_from_json_data(
        &rows_document(),
        "rows[]",
        "items",
        "pk",
        names(&["label"]),
        vec![rule("pk", "id"), rule("name", "label")],
        false,
    );
    assert_eq!(out.err(), Some(BatchError::Schema(SchemaError::KeyNotMapped("pk".to_string()))));
    let config = UpdateConfig {
        json_path: "data.json".to_string(),
        db_path: "data.db".to_string(),
        json_root: "rows[]".to_string(),
        table_name: "items".to_string(),
        key_column: "pk".to_string(),
        update_columns: names(&["label"]),
        mapping: vec![],
        dry_run: true,
    };
    assert_eq!(
        update_sqlite_from_json(config, &rows_document()).err(),
        Some(BatchError::Schema(SchemaError::KeyNotMapped("pk".to_string())))
    );
}

#[test]
fn the_key_is_mapped_when_a_rule_feeds_it() {
    assert!(is_key_mapped(&mapping(), "pk"));
    assert!(is_key_mapped(&mapping(), "label"));
    assert!(!is_key_mapped(&mapping(), "id"));
    assert!(!is_key_mapped(&mapping(), "PK"));
    assert!(!is_key_mapped(&vec![], "pk"));
}

#[test]
fn a_root_that_does_not_resolve_ends_the_update_before_it_starts() {
    let out = update_sqlite_from_json_data(
        &rows_document(), "nothing[]", "items", "pk", names(&["label"]), vec![], false,
    );
    assert_eq!(
        out.err(),
        Some(BatchError::Path(PathError::MissingProperty("nothing".to_string())))
    );
}

#[test]
fn a_dry_run_of_an_update_is_over_at_once() {
    let config = UpdateConfig {
        json_path: "data.json".to_string(),
        db_path: "data.db".to_string(),
        json_root: "rows[]".to_string(),
        table_name: "items".to_string(),
        key_column: "pk".to_string(),
        update_columns: names(&["label"]),
        mapping: mapping(),
        dry_run: true,
    };
    let (session, step) = update_sqlite_from_json(config, &rows_document()).unwrap();
    assert_eq!(session.phase(), UpdatePhase::Done);
    assert_eq!(step.report, Some(progress(2, 0, 0, 0, "Préparation...")));
    assert_eq!(
        step.action,
        UpdateAction::Finish(Ok(progress(2, 0, 0, 0, "Simulation terminée (dry run)")))
    );
}

#[test]
fn an_update_starts_by_asking_for_the_database() {
    let (mut session, step) = start(&rows_document(), "rows[]");
    assert_eq!(session.phase(), UpdatePhase::Preparing);
    assert_eq!(session.table_name(), "items");
    assert_eq!(session.progress("now"), progress(2, 0, 0, 0, "now"));
    assert_eq!(step.report, Some(progress(2, 0, 0, 0, "Préparation...")));
    assert_eq!(step.action, UpdateAction::Connect);
    let step = session.advance(UpdateEvent::Connected);
    assert_eq!(step.report, None);
    assert_eq!(
        step.action,
        UpdateAction::ReadSchema {
            columns_statement: "SELECT * FROM pragma_table_info('items') ORDER BY cid".to_string()
        }
    );
    assert_eq!(session.phase(), UpdatePhase::AnalyzingSchema);
}

#[test]
fn failures_before_the_first_record_end_the_update() {
    let (mut session, _) = start(&rows_document(), "rows[]");
    let step = session.advance(UpdateEvent::ConnectionFailed("locked".to_string()));
    assert_eq!(step.action, UpdateAction::Finish(Err(BatchError::Connection("locked".to_string()))));
    assert_eq!(session.phase(), UpdatePhase::Failed);

    let (mut session, _) = start(&rows_document(), "rows[]");
    session.advance(UpdateEvent::Connected);
    let step = session.advance(UpdateEvent::SchemaFailed("disk".to_string()));
    assert_eq!(step.action, UpdateAction::Finish(Err(BatchError::SchemaRead("disk".to_string()))));

    let (mut session, _) = start(&rows_document(), "rows[]");
    session.advance(UpdateEvent::Connected);
    session.advance(UpdateEvent::SchemaRead { columns: vec![listed("pk", "INTEGER"), listed("label", "TEXT")] });
    let step = session.advance(UpdateEvent::TransactionFailed("busy".to_string()));
    assert_eq!(step.action, UpdateAction::Finish(Err(BatchError::Prepare("busy".to_string()))));

    let (mut session, _) = update_sqlite_from_json_data(
        &rows_document(), "rows[]", "it ems", "pk", names(&["label"]), mapping(), false,
    )
    .unwrap();
    let step = session.advance(UpdateEvent::Connected);
    assert_eq!(
        step.action,
        UpdateAction::Finish(Err(BatchError::Schema(SchemaError::InvalidIdentifier("it ems".to_string()))))
    );
}

#[test]
fn the_table_must_hold_the_key_and_the_columns_to_set() {
    let schema_step = |columns: Vec<ColumnRow>, update_columns: Vec<String>| {
        let (mut session, _) = update_sqlite_from_json_data(
            &rows_document(), "rows[]", "items", "pk", update_columns, mapping(), false,
        )
        .unwrap();
        session.advance(UpdateEvent::Connected);
        session.advance(UpdateEvent::SchemaRead { columns }).action
    };
    assert_eq!(
        schema_step(vec![], names(&["label"])),
        UpdateAction::Finish(Err(BatchError::Schema(SchemaError::TableNotFound("items".to_string()))))
    );
    assert_eq!(
        schema_step(vec![listed("label", "TEXT")], names(&["label"])),
        UpdateAction::Finish(Err(BatchError::Schema(SchemaError::KeyColumnNotFound("pk".to_string()))))
    );
    assert_eq!(
        schema_step(
            vec![listed("pk", "INTEGER"), listed("label", "TEXT")],
            names(&["label", "note", "extra"])
        ),
        UpdateAction::Finish(Err(BatchError::Schema(SchemaError::ColumnsNotFound(names(&[
            "note", "extra"
        ])))))
    );
    assert_eq!(
        schema_step(vec![listed("pk", "INTEGER"), listed("my label", "TEXT")], names(&["my label"])),
        UpdateAction::Finish(Err(BatchError::Schema(SchemaError::InvalidIdentifier(
            "my label".to_string()
        ))))
    );
    assert_eq!(
        schema_step(vec![listed("pk", "INTEGER"), listed("label", "TEXT")], names(&["label"])),
        UpdateAction::OpenTransaction
    );
}

#[test]
fn absent_and_present_columns_are_listed_in_order() {
    let allowed = names(&["pk", "label"]);
    assert_eq!(missing_columns(&names(&["x", "label", "y"]), &allowed), names(&["x", "y"]));
    assert_eq!(missing_columns(&names(&["label"]), &allowed), Vec::<String>::new());
    let record = object(vec![("id", number(1)), ("name", text("a"))]);
    let row = apply_mapping(&record, &vec![rule("id", "pk"), rule("name", "label"), rule("no", "gone")]);
    assert_eq!(
        present_columns(&row, &names(&["gone", "label", "other", "pk"])),
        names(&["label", "pk"])
    );
}

#[test]
fn statements_name_the_table_the_columns_and_the_key() {
    assert_eq!(build_check_statement("items", "pk"), "SELECT COUNT(*) FROM items WHERE pk = ?");
    assert_eq!(
        build_update_statement("items", &names(&["label", "note"]), "pk"),
        "UPDATE items SET label = ?, note = ? WHERE pk = ?"
    );
    assert_eq!(
        build_update_statement("items", &names(&["label"]), "pk"),
        "UPDATE items SET label = ? WHERE pk = ?"
    );
}

#[test]
fn a_key_is_looked_up_by_its_text() {
    assert_eq!(key_lookup_text(&text("abc")), "abc");
    assert_eq!(key_lookup_text(&number(12)), "12");
    assert_eq!(key_lookup_text(&JsonValue::Bool(true)), "true");
    assert_eq!(key_lookup_text(&JsonValue::Null), "null");
    assert_eq!(key_lookup_text(&JsonValue::Array(vec![number(1)])), "[1]");
}

#[test]
fn a_record_is_looked_up_and_then_updated() {
    let (mut session, step) = started_on_records(&rows_document(), "rows[]");
    assert_eq!(step.report, Some(progress(2, 0, 0, 0, "Mise à jour des données...")));
    assert_eq!(
        step.action,
        UpdateAction::CheckExists {
            statement: "SELECT COUNT(*) FROM items WHERE pk = ?".to_string(),
            key: "1".to_string(),
        }
    );
    assert_eq!(session.phase(), UpdatePhase::Checking);
    let step = session.advance(UpdateEvent::Counted(1));
    assert_eq!(step.report, None);
    assert_eq!(
        step.action,
        UpdateAction::Update {
            statement: "UPDATE items SET label = ? WHERE pk = ?".to_string(),
            parameters: vec![SqlValue::Text("a".to_string()), SqlValue::Integer(1)],
        }
    );
    assert_eq!(session.phase(), UpdatePhase::Updating);
    let step = session.advance(UpdateEvent::Updated(1));
    assert_eq!(step.report, None);
    assert_eq!(
        step.action,
        UpdateAction::CheckExists {
            statement: "SELECT COUNT(*) FROM items WHERE pk = ?".to_string(),
            key: "2".to_string(),
        }
    );
    assert_eq!(session.progress(""), progress(2, 1, 1, 0, ""));
}

#[test]
fn a_key_without_row_is_counted_as_not_found() {
    let (mut session, _) = started_on_records(&rows_document(), "rows[]");
    let step = session.advance(UpdateEvent::Counted(0));
    assert_eq!(step.report, None);
    assert!(matches!(step.action, UpdateAction::CheckExists { .. }));
    assert_eq!(session.progress(""), progress(2, 1, 0, 1, ""));
    session.advance(UpdateEvent::Counted(1));
    let step = session.advance(UpdateEvent::Updated(1));
    assert_eq!(step.report, Some(progress(2, 2, 1, 1, "Progression: 2/2 objets traités")));
    assert_eq!(step.action, UpdateAction::Commit);
    let step = session.advance(UpdateEvent::Committed);
    assert_eq!(
        step.action,
        UpdateAction::Finish(Ok(progress(
            2,
            2,
            1,
            1,
            "Mise à jour terminée. Succès: 1, Échecs: 0, Non trouvés: 1"
        )))
    );
    assert_eq!(session.phase(), UpdatePhase::Done);
}

#[test]
fn every_other_outcome_of_a_record_is_counted_as_failed() {
    let document = JsonValue::Array(vec![
        object(vec![("name", text("no key"))]),
        object(vec![("id", number(2))]),
        object(vec![("id", number(3)), ("name", text("c"))]),
        object(vec![("id", number(4)), ("name", text("d"))]),
        object(vec![("id", number(5)), ("name", text("e"))]),
    ]);
    let (mut session, step) = started_on_records(&document, "");
    assert_eq!(step.action, UpdateAction::Skip);
    let step = session.advance(UpdateEvent::Skipped);
    assert_eq!(session.progress(""), progress(5, 1, 0, 1, ""));
    assert!(matches!(step.action, UpdateAction::CheckExists { .. }));
    let step = session.advance(UpdateEvent::Counted(1));
    assert_eq!(session.progress(""), progress(5, 2, 0, 2, ""));
    assert!(matches!(step.action, UpdateAction::CheckExists { .. }));
    let step = session.advance(UpdateEvent::CheckFailed("busy".to_string()));
    assert_eq!(session.progress(""), progress(5, 3, 0, 3, ""));
    assert!(matches!(step.action, UpdateAction::CheckExists { .. }));
    session.advance(UpdateEvent::Counted(2));
    let step = session.advance(UpdateEvent::Updated(0));
    assert_eq!(session.progress(""), progress(5, 4, 0, 4, ""));
    assert!(matches!(step.action, UpdateAction::CheckExists { .. }));
    session.advance(UpdateEvent::Counted(1));
    let step = session.advance(UpdateEvent::UpdateFailed("constraint".to_string()));
    assert_eq!(step.report, Some(progress(5, 5, 0, 5, "Progression: 5/5 objets traités")));
    assert_eq!(step.action, UpdateAction::Commit);
    let step = session.advance(UpdateEvent::Committed);
    assert_eq!(
        step.action,
        UpdateAction::Finish(Ok(progress(
            5,
            5,
            0,
            5,
            "Mise à jour terminée. Succès: 0, Échecs: 4, Non trouvés: 1"
        )))
    );
}

#[test]
fn events_out_of_turn_end_the_update() {
    let (mut session, _) = started_on_records(&rows_document(), "rows[]");
    let step = session.advance(UpdateEvent::Skipped);
    assert_eq!(step.action, UpdateAction::Finish(Err(BatchError::UnexpectedEvent)));
    assert_eq!(session.phase(), UpdatePhase::Failed);

    let (mut session, _) = started_on_records(&rows_document(), "rows[]");
    let step = session.advance(UpdateEvent::Updated(1));
    assert_eq!(step.action, UpdateAction::Finish(Err(BatchError::UnexpectedEvent)));

    let document = JsonValue::Array(vec![object(vec![("name", text("no key"))])]);
    let (mut session, step) = started_on_records(&document, "");
    assert_eq!(step.action, UpdateAction::Skip);
    let step = session.advance(UpdateEvent::Counted(1));
    assert_eq!(step.action, UpdateAction::Finish(Err(BatchError::UnexpectedEvent)));

    let (mut session, _) = start(&rows_document(), "rows[]");
    let step = session.advance(UpdateEvent::Committed);
    assert_eq!(step.action, UpdateAction::Finish(Err(BatchError::UnexpectedEvent)));
}

#[test]
fn a_failed_commit_ends_the_update_with_an_error() {
    let (mut session, _) = started_on_records(&JsonValue::Array(vec![]), "");
    assert_eq!(session.phase(), UpdatePhase::Committing);
    let step = session.advance(UpdateEvent::CommitFailed("full".to_string()));
    assert_eq!(step.action, UpdateAction::Finish(Err(BatchError::Commit("full".to_string()))));
}

#[test]
fn skipped_records_are_reported_at_the_same_cadence() {
    let document = JsonValue::Array((0..12).map(|_| object(vec![("name", text("x"))])).collect());
    let (mut session, mut step) = started_on_records(&document, "");
    let mut reported = Vec::new();
    while step.action == UpdateAction::Skip {
        step = session.advance(UpdateEvent::Skipped);
        if let Some(snapshot) = &step.report {
            assert_eq!(snapshot.processed, snapshot.succeeded + snapshot.failed);
            reported.push(snapshot.processed);
        }
    }
    assert_eq!(reported, vec![10, 12]);
    assert_eq!(step.action, UpdateAction::Commit);
}

#[test]
fn rows_are_updated_from_records() {
    let conn = table_with_two_rows();
    let (session, first) = start(&rows_document(), "rows[]");
    let mut reports = Vec::new();
    let last = run_update(&conn, session, first, &mut reports).unwrap();
    assert_eq!(
        last,
        progress(2, 2, 2, 0, "Mise à jour terminée. Succès: 2, Échecs: 0, Non trouvés: 0")
    );
    assert_eq!(labels(&conn), vec![(1, Some("a".to_string())), (2, Some("b".to_string()))]);
    let statuses: Vec<&str> = reports.iter().map(|report| report.status.as_str()).collect();
    assert_eq!(
        statuses,
        vec![
            "Préparation...",
            "Mise à jour des données...",
            "Progression: 2/2 objets traités",
            "Mise à jour terminée. Succès: 2, Échecs: 0, Non trouvés: 0",
        ]
    );
}

#[test]
fn a_key_that_the_table_lacks_is_counted_and_the_rest_is_committed() {
    let conn = table_with_two_rows();
    let document = JsonValue::Array(vec![
        object(vec![("id", number(1)), ("name", text("new one"))]),
        object(vec![("id", number(99)), ("name", text("nobody"))]),
        object(vec![("id", number(2)), ("name", text("new two"))]),
    ]);
    let (session, first) = start(&document, "");
    let mut reports = Vec::new();
    let last = run_update(&conn, session, first, &mut reports).unwrap();
    assert_eq!(
        last,
        progress(3, 3, 2, 1, "Mise à jour terminée. Succès: 2, Échecs: 0, Non trouvés: 1")
    );
    assert_eq!(
        labels(&conn),
        vec![(1, Some("new one".to_string())), (2, Some("new two".to_string()))]
    );
}

#[test]
fn an_update_of_a_missing_table_is_reported() {
    let conn = Connection::open_in_memory().unwrap();
    let (session, first) = start(&rows_document(), "rows[]");
    let mut reports = Vec::new();
    assert_eq!(
        run_update(&conn, session, first, &mut reports),
        Err(BatchError::Schema(SchemaError::TableNotFound("items".to_string())))
    );
}
