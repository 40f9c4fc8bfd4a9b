use woasobi::initial::{
    initial_migrations, messages_table, messages_thread_index, settings_table, threads_table,
};
use woasobi::migration::{check_versions_increasing, Database, Migration, MigrationError, MigrationKind};
use woasobi::schema::{Column, IndexDef, Schema, SchemaError, Statement, TableDef};
use woasobi::store::Thread;

fn table_names(db: &Database) -> Vec<String> {
    db.schema.tables.iter().map(|t| t.name.clone()).collect()
}

fn index_names(db: &Database) -> Vec<String> {
    db.schema.indexes.iter().map(|i| i.name.clone()).collect()
}

fn one_column_table(name: &str) -> TableDef {
    TableDef {
        name: name.to_string(),
        columns: vec![Column {
            name: "id".to_string(),
            not_null: true,
            primary_key: true,
            default_now: false,
        }],
        foreign_keys: Vec::new(),
    }
}

fn index_on(name: &str, table: &str) -> IndexDef {
    IndexDef { name: name.to_string(), table: table.to_string(), column: "id".to_string() }
}

fn migration(version: u64, statements: Vec<Statement>) -> Migration {
    Migration {
        version,
        description: format!("migration {}", version),
        statements,
        kind: MigrationKind::Up,
    }
}

#[test]
fn fresh_store_gets_three_tables_and_one_index() {
    let mut db = Database::new();
    assert_eq!(db.run_migrations(initial_migrations()), Ok(1));
    assert_eq!(db.watermark, 1);
    assert_eq!(
        table_names(&db),
        vec!["threads".to_string(), "messages".to_string(), "settings".to_string()]
    );
    assert_eq!(index_names(&db), vec!["idx_messages_thread_id".to_string()]);
    let threads = &db.schema.tables[0];
    let nullable: Vec<(String, bool, bool)> = threads
        .columns
        .iter()
        .map(|c| (c.name.clone(), c.not_null, c.default_now))
        .collect();
    assert_eq!(
        nullable,
        vec![
            ("id".to_string(), true, false),
            ("title".to_string(), true, false),
            ("workspace_id".to_string(), false, false),
            ("model".to_string(), false, false),
            ("mode".to_string(), false, false),
            ("created_at".to_string(), true, true),
            ("updated_at".to_string(), true, true),
        ]
    );
    let messages = &db.schema.tables[1];
    assert_eq!(messages.foreign_keys.len(), 1);
    assert_eq!(messages.foreign_keys[0].ref_table, "threads");
    assert!(messages.foreign_keys[0].cascade_on_delete);
    assert_eq!(db.schema.indexes[0].table, "messages");
    assert_eq!(db.schema.indexes[0].column, "thread_id");
}

#[test]
fn rerun_on_migrated_store_applies_nothing() {
    let mut db = Database::new();
    db.run_migrations(initial_migrations()).unwrap();
    db.data
        .insert_thread(Thread {
            id: "t1".to_string(),
            title: "first".to_string(),
            workspace_id: None,
            model: None,
            mode: None,
            created_at: "now".to_string(),
            updated_at: "now".to_string(),
        })
        .unwrap();
    assert_eq!(db.run_migrations(initial_migrations()), Ok(0));
    assert_eq!(db.watermark, 1);
    assert_eq!(table_names(&db).len(), 3);
    assert_eq!(index_names(&db).len(), 1);
    assert_eq!(db.data.threads.len(), 1);
}

#[test]
fn watermark_goes_from_zero_to_one_then_stays() {
    let mut db = Database::new();
    let v1 = || vec![migration(1, vec![Statement::CreateTable(one_column_table("a"))])];
    assert_eq!(db.run_migrations(v1()), Ok(1));
    assert_eq!(db.watermark, 1);
    assert_eq!(db.run_migrations(v1()), Ok(0));
    assert_eq!(db.watermark, 1);
    assert_eq!(table_names(&db), vec!["a".to_string()]);
}

#[test]
fn only_migrations_above_watermark_run() {
    let mut db = Database::new();
    db.run_migrations(vec![migration(1, vec![Statement::CreateTable(one_column_table("a"))])])
        .unwrap();
    let both = vec![
        migration(1, vec![Statement::CreateTable(one_column_table("a"))]),
        migration(2, vec![Statement::CreateTable(one_column_table("b"))]),
    ];
    assert_eq!(db.run_migrations(both), Ok(1));
    assert_eq!(db.watermark, 2);
    assert_eq!(table_names(&db), vec!["a".to_string(), "b".to_string()]);
}

#[test]
fn out_of_order_versions_are_refused() {
    let mut db = Database::new();
    let migs = vec![
        migration(2, vec![Statement::CreateTable(one_column_table("b"))]),
        migration(1, vec![Statement::CreateTable(one_column_table("a"))]),
    ];
    assert!(!check_versions_increasing(&migs));
    assert_eq!(db.run_migrations(migs), Err(MigrationError::OutOfOrder));
    assert_eq!(db.watermark, 0);
    assert!(db.schema.tables.is_empty());
    let equal = vec![migration(1, Vec::new()), migration(1, Vec::new())];
    assert_eq!(db.run_migrations(equal), Err(MigrationError::OutOfOrder));
}

#[test]
fn failed_batch_is_rolled_back_and_not_recorded() {
    let mut db = Database::new();
    let migs = vec![
        migration(1, vec![Statement::CreateTable(one_column_table("a"))]),
        migration(
            2,
            vec![
                Statement::CreateTable(one_column_table("b")),
                Statement::CreateIndex(index_on("idx_missing", "missing")),
            ],
        ),
        migration(3, vec![Statement::CreateTable(one_column_table("c"))]),
    ];
    assert_eq!(
        db.run_migrations(migs),
        Err(MigrationError::Failed { version: 2, cause: SchemaError::NoSuchTable })
    );
    assert_eq!(db.watermark, 1);
    assert_eq!(table_names(&db), vec!["a".to_string()]);
    assert!(db.schema.indexes.is_empty());
}

#[test]
fn create_if_not_exists_is_a_no_op_on_existing_names() {
    let mut s = Schema::new();
    assert_eq!(s.apply_statement(Statement::CreateTable(threads_table())), Ok(()));
    assert_eq!(s.apply_statement(Statement::CreateTable(one_column_table("threads"))), Ok(()));
    assert_eq!(s.tables.len(), 1);
    assert_eq!(s.tables[0].columns.len(), 7);
    assert_eq!(
        s.apply_statement(Statement::CreateIndex(index_on("i", "nope"))),
        Err(SchemaError::NoSuchTable)
    );
    assert_eq!(s.apply_statement(Statement::CreateIndex(index_on("i", "threads"))), Ok(()));
    assert_eq!(s.apply_statement(Statement::CreateIndex(index_on("i", "nope"))), Ok(()));
    assert_eq!(s.indexes.len(), 1);
}

#[test]
fn full_batch_applied_twice_is_unchanged() {
    let mut s = Schema::new();
    for m in initial_migrations() {
        s.apply_batch(m.statements).unwrap();
    }
    for m in initial_migrations() {
        s.apply_batch(m.statements).unwrap();
    }
    assert_eq!(s.tables.len(), 3);
    assert_eq!(s.indexes.len(), 1);
}

#[test]
fn table_sql_is_exact() {
    assert_eq!(
        Statement::CreateTable(threads_table()).to_sql(),
        "CREATE TABLE IF NOT EXISTS threads (id TEXT PRIMARY KEY NOT NULL, title TEXT NOT NULL, \
         workspace_id TEXT, model TEXT, mode TEXT, \
         created_at TEXT NOT NULL DEFAULT (datetime('now')), \
         updated_at TEXT NOT NULL DEFAULT (datetime('now')));"
    );
    assert_eq!(
        Statement::CreateTable(messages_table()).to_sql(),
        "CREATE TABLE IF NOT EXISTS messages (id TEXT PRIMARY KEY NOT NULL, \
         thread_id TEXT NOT NULL, role TEXT NOT NULL, content TEXT, tool_calls TEXT, \
         timestamp TEXT NOT NULL DEFAULT (datetime('now')), \
         FOREIGN KEY (thread_id) REFERENCES threads(id) ON DELETE CASCADE);"
    );
    assert_eq!(
        Statement::CreateTable(settings_table()).to_sql(),
        "CREATE TABLE IF NOT EXISTS settings (key TEXT PRIMARY KEY NOT NULL, \
         value TEXT NOT NULL, updated_at TEXT NOT NULL DEFAULT (datetime('now')));"
    );
}

#[test]
fn index_sql_is_exact() {
    assert_eq!(
        Statement::CreateIndex(messages_thread_index()).to_sql(),
        "CREATE INDEX IF NOT EXISTS idx_messages_thread_id ON messages(thread_id);"
    );
}

#[test]
fn migration_sql_has_one_statement_per_line() {
    let migs = initial_migrations();
    assert_eq!(migs.len(), 1);
    assert_eq!(migs[0].version, 1);
    assert_eq!(migs[0].description, "create_threads_and_messages_tables");
    let sql = migs[0].sql();
    let lines: Vec<&str> = sql.split('\n').collect();
    assert_eq!(lines.len(), 4);
    assert!(lines[0].starts_with("CREATE TABLE IF NOT EXISTS threads ("));
    assert!(lines[1].starts_with("CREATE TABLE IF NOT EXISTS messages ("));
    assert_eq!(lines[2], "CREATE INDEX IF NOT EXISTS idx_messages_thread_id ON messages(thread_id);");
    assert!(lines[3].starts_with("CREATE TABLE IF NOT EXISTS settings ("));
}

#[test]
fn empty_batch_sql_is_empty() {
    assert_eq!(migration(1, Vec::new()).sql(), "");
}
