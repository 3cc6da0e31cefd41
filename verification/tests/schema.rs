use json_to_sqlite::names::add_name;
use json_to_sqlite::names::add_names;
use json_to_sqlite::schema::analyze_table;
use json_to_sqlite::schema::check_identifier;
use json_to_sqlite::schema::find_column;
use json_to_sqlite::schema::get_table_columns;
use json_to_sqlite::schema::get_unique_columns;
use json_to_sqlite::schema::index_column_names;
use json_to_sqlite::schema::index_info_query;
use json_to_sqlite::schema::index_list_query;
use json_to_sqlite::schema::is_unique_index;
use json_to_sqlite::schema::reads_as_unique_index;
use json_to_sqlite::schema::order_by_position;
use json_to_sqlite::schema::table_info_query;
use json_to_sqlite::schema::table_list_query;
use json_to_sqlite::schema::ColumnInfo;
use json_to_sqlite::schema::ColumnRow;
use json_to_sqlite::schema::IndexColumn;
use json_to_sqlite::schema::IndexRow;
use json_to_sqlite::schema::SchemaError;
use json_to_sqlite::schema::TableInfo;

fn listed(name: &str, data_type: &str, not_null: i32, default: Option<&str>, pk: i32) -> ColumnRow {
    ColumnRow {
        name: name.to_string(),
        data_type: data_type.to_string(),
        not_null,
        default_value: default.map(str::to_string),
        primary_key: pk,
    }
}

fn column(name: &str, data_type: &str, not_null: bool, default: Option<&str>, pk: bool) -> ColumnInfo {
    ColumnInfo {
        name: name.to_string(),
        data_type: data_type.to_string(),
        not_null,
        primary_key: pk,
        default_value: default.map(str::to_string),
    }
}

fn member(position: i32, name: &str) -> IndexColumn {
    IndexColumn { position, name: name.to_string() }
}

fn index(name: &str, sql: Option<&str>, columns: Vec<IndexColumn>) -> IndexRow {
    IndexRow { name: name.to_string(), sql: sql.map(str::to_string), columns }
}

#[test]
fn a_listing_becomes_column_metadata() {
    let rows = vec![
        listed("pk", "INTEGER", 1, None, 1),
        listed("label", "TEXT", 0, Some("'none'"), 0),
        listed("part", "TEXT", 2, None, 2),
    ];
    assert_eq!(
        get_table_columns(&rows, "items"),
        Ok(vec![
            column("pk", "INTEGER", true, None, true),
            column("label", "TEXT", false, Some("'none'"), false),
            column("part", "TEXT", false, None, true),
        ])
    );
}

#[test]
fn every_column_of_a_composite_key_is_a_key_column() {
    let rows = vec![
        listed("a", "INTEGER", 0, None, 1),
        listed("b", "INTEGER", 0, None, 2),
        listed("c", "TEXT", 0, None, 0),
    ];
    let columns = get_table_columns(&rows, "t").unwrap();
    let flags: Vec<bool> = columns.iter().map(|column| column.primary_key).collect();
    assert_eq!(flags, vec![true, true, false]);
    let names: Vec<&str> = columns.iter().map(|column| column.name.as_str()).collect();
    assert_eq!(names, vec!["a", "b", "c"]);
    assert!(columns.iter().all(|column| !column.not_null && column.default_value.is_none()));
}

#[test]
fn a_table_without_columns_does_not_exist() {
    assert_eq!(
        get_table_columns(&vec![], "ghost"),
        Err(SchemaError::TableNotFound("ghost".to_string()))
    );
    assert_eq!(
        analyze_table(&vec![], &vec![], "ghost"),
        Err(SchemaError::TableNotFound("ghost".to_string()))
    );
}

#[test]
fn a_column_is_found_by_its_name() {
    let columns = vec![column("pk", "INTEGER", true, None, true), column("pk", "TEXT", false, None, false)];
    assert_eq!(find_column(&columns, "pk"), Some(&columns[0]));
    assert_eq!(find_column(&columns, "PK"), None);
    assert_eq!(find_column(&vec![], "pk"), None);
}

#[test]
fn an_index_is_unique_when_its_statement_says_so() {
    assert!(is_unique_index(&Some("CREATE UNIQUE INDEX u ON t (a)".to_string())));
    assert!(is_unique_index(&Some("create unique index u on t (a)".to_string())));
    assert!(is_unique_index(&Some("  Create\n\tUnique   Index IF NOT EXISTS u ON t(a)".to_string())));
    assert!(is_unique_index(&Some("CREATE UNIQUE INDEX\"u\" ON t (a)".to_string())));
    assert!(!is_unique_index(&Some("CREATE INDEX i ON t (a)".to_string())));
    assert!(!is_unique_index(&Some("CREATE INDEX unique_c ON t(c)".to_string())));
    assert!(!is_unique_index(&Some("CREATE INDEX i ON t (a) WHERE a != 'UNIQUE'".to_string())));
    assert!(!is_unique_index(&Some("CREATE UNIQUEINDEX u ON t (a)".to_string())));
    assert!(!is_unique_index(&Some("CREATE UNIQUE INDEXES".to_string())));
    assert!(!is_unique_index(&Some("CREATE UNIQUE".to_string())));
    assert!(!is_unique_index(&Some(String::new())));
    assert!(!is_unique_index(&None));
    assert!(reads_as_unique_index("CREATE UNIQUE INDEX"));
    assert!(reads_as_unique_index("CREATE UNIQUE INDEX U ON T(C)"));
    assert!(!reads_as_unique_index("CREATE INDEX UNIQUE_C ON T(C)"));
    assert!(!reads_as_unique_index("create unique index"));
}

#[test]
fn an_index_named_after_the_word_is_not_unique() {
    let indexes = vec![
        index("ux", Some("CREATE UNIQUE INDEX ux ON t(b)"), vec![member(0, "b")]),
        index("unique_c", Some("CREATE INDEX unique_c ON t(c)"), vec![member(0, "c")]),
    ];
    assert_eq!(get_unique_columns(&indexes), vec!["b"]);
}

#[test]
fn member_columns_are_ordered_by_rank() {
    let columns = vec![member(2, "c"), member(0, "a"), member(1, "b")];
    assert_eq!(order_by_position(&columns), vec![member(0, "a"), member(1, "b"), member(2, "c")]);
    assert_eq!(index_column_names(&columns), vec!["a", "b", "c"]);
    assert_eq!(order_by_position(&vec![]), vec![]);
}

#[test]
fn members_of_equal_rank_keep_the_order_read() {
    let columns = vec![member(1, "x"), member(0, "first"), member(1, "y"), member(0, "second")];
    assert_eq!(index_column_names(&columns), vec!["first", "second", "x", "y"]);
}

#[test]
fn unique_columns_are_collected_once_each() {
    let indexes = vec![
        index("u1", Some("CREATE UNIQUE INDEX u1 ON t (b, a)"), vec![member(1, "a"), member(0, "b")]),
        index("plain", Some("CREATE INDEX plain ON t (z)"), vec![member(0, "z")]),
        index("auto", None, vec![member(0, "hidden")]),
        index("u2", Some("create unique index u2 on t (a, c)"), vec![member(0, "a"), member(1, "c")]),
    ];
    assert_eq!(get_unique_columns(&indexes), vec!["b", "a", "c"]);
    assert_eq!(get_unique_columns(&vec![]), Vec::<String>::new());
}

#[test]
fn a_table_is_described_by_columns_and_unique_indexes() {
    let rows = vec![listed("pk", "INTEGER", 0, None, 1), listed("label", "TEXT", 1, None, 0)];
    let indexes = vec![
        index("u1", Some("CREATE UNIQUE INDEX u1 ON t (label, pk)"), vec![member(1, "pk"), member(0, "label")]),
        index("plain", Some("CREATE INDEX plain ON t (pk)"), vec![member(0, "pk")]),
        index("u2", Some("CREATE UNIQUE INDEX u2 ON t (pk)"), vec![member(0, "pk")]),
        index("u3", Some("CREATE UNIQUE INDEX u3 ON t (x)"), vec![]),
    ];
    assert_eq!(
        analyze_table(&rows, &indexes, "t"),
        Ok(TableInfo {
            columns: vec![
                column("pk", "INTEGER", false, None, true),
                column("label", "TEXT", true, None, false),
            ],
            unique_constraints: vec![
                vec!["label".to_string(), "pk".to_string()],
                vec!["pk".to_string()],
                vec![],
            ],
        })
    );
}

#[test]
fn identifiers_are_letters_digits_and_underscores() {
    for name in ["t", "_t", "items", "Items_2", "a1_b2", "_"] {
        assert!(check_identifier(name), "{}", name);
    }
    for name in ["", "1t", "a b", "a-b", "a.b", "a'b", "t;", "été", "a\"b", "x)"] {
        assert!(!check_identifier(name), "{}", name);
    }
}

#[test]
fn statements_are_built_for_identifiers_only() {
    assert_eq!(
        table_info_query("items"),
        Ok("SELECT * FROM pragma_table_info('items') ORDER BY cid".to_string())
    );
    assert_eq!(
        index_list_query("items"),
        Ok("SELECT name, sql FROM sqlite_master WHERE type='index' AND tbl_name='items'".to_string())
    );
    let hostile = "x'); DROP TABLE items; --";
    assert_eq!(table_info_query(hostile), Err(SchemaError::InvalidIdentifier(hostile.to_string())));
    assert_eq!(index_list_query(hostile), Err(SchemaError::InvalidIdentifier(hostile.to_string())));
    assert_eq!(table_info_query(""), Err(SchemaError::InvalidIdentifier(String::new())));
}

#[test]
fn the_tables_of_a_database_are_listed_without_its_own() {
    assert_eq!(
        table_list_query(),
        "SELECT name FROM sqlite_master WHERE type='table' AND name NOT LIKE 'sqlite_%'"
    );
}

#[test]
fn an_index_name_is_quoted_with_doubled_quotes() {
    assert_eq!(index_info_query("u1"), "SELECT * FROM pragma_index_info('u1')");
    assert_eq!(index_info_query("it's"), "SELECT * FROM pragma_index_info('it''s')");
}

#[test]
fn names_are_added_once() {
    let mut names = vec!["a".to_string()];
    add_name(&mut names, "b");
    add_name(&mut names, "a");
    assert_eq!(names, vec!["a", "b"]);
    add_names(&mut names, &vec!["c".to_string(), "b".to_string(), "c".to_string(), "d".to_string()]);
    assert_eq!(names, vec!["a", "b", "c", "d"]);
}
