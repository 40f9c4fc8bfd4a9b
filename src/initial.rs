use vstd::prelude::*;
use vstd::string::StringExecFns;
use crate::schema::{
    apply_batch_spec, Column, ColumnView, ForeignKey, ForeignKeyView, IndexDef, IndexView,
    SchemaError, SchemaView, Statement, StatementView, TableDef, TableView,
};
use crate::migration::{
    migration_views, run_from, Migration, MigrationKind, MigrationView, RunOutcome,
};

verus! {

pub open spec fn column_spec(
    name: Seq<char>,
    not_null: bool,
    primary_key: bool,
    default_now: bool,
) -> ColumnView {
    ColumnView { name, not_null, primary_key, default_now }
}

/// `threads`: id (key), title (required), workspace_id, model and mode
/// (optional), created_at and updated_at (required, default now).
pub open spec fn threads_table_spec() -> TableView {
    TableView {
        name: "threads"@,
        columns: seq![
            column_spec("id"@, true, true, false),
            column_spec("title"@, true, false, false),
            column_spec("workspace_id"@, false, false, false),
            column_spec("model"@, false, false, false),
            column_spec("mode"@, false, false, false),
            column_spec("created_at"@, true, false, true),
            column_spec("updated_at"@, true, false, true),
        ],
        foreign_keys: Seq::empty(),
    }
}

/// `messages`: id (key), thread_id (required, refers to `threads.id`, deleted
/// with its thread), role (required), content and tool_calls (optional),
/// timestamp (required, default now).
pub open spec fn messages_table_spec() -> TableView {
    TableView {
        name: "messages"@,
        columns: seq![
            column_spec("id"@, true, true, false),
            column_spec("thread_id"@, true, false, false),
            column_spec("role"@, true, false, false),
            column_spec("content"@, false, false, false),
            column_spec("tool_calls"@, false, false, false),
            column_spec("timestamp"@, true, false, true),
        ],
        foreign_keys: seq![
            ForeignKeyView {
                column: "thread_id"@,
                ref_table: "threads"@,
                ref_column: "id"@,
                cascade_on_delete: true,
            },
        ],
    }
}

/// The index of messages by thread.
pub open spec fn messages_thread_index_spec() -> IndexView {
    IndexView { name: "idx_messages_thread_id"@, table: "messages"@, column: "thread_id"@ }
}

/// `settings`: key (key), value (required), updated_at (required, default now).
pub open spec fn settings_table_spec() -> TableView {
    TableView {
        name: "settings"@,
        columns: seq![
            column_spec("key"@, true, true, false),
            column_spec("value"@, true, false, false),
            column_spec("updated_at"@, true, false, true),
        ],
        foreign_keys: Seq::empty(),
    }
}

pub open spec fn initial_statements_spec() -> Seq<StatementView> {
    seq![
        StatementView::CreateTable(threads_table_spec()),
        StatementView::CreateTable(messages_table_spec()),
        StatementView::CreateIndex(messages_thread_index_spec()),
        StatementView::CreateTable(settings_table_spec()),
    ]
}

/// The application's migrations: version 1 creates the three tables and the index.
pub open spec fn initial_migrations_spec() -> Seq<MigrationView> {
    seq![
        MigrationView {
            version: 1,
            description: "create_threads_and_messages_tables"@,
            statements: initial_statements_spec(),
            kind: MigrationKind::Up,
        },
    ]
}

/// The schema that the application's migrations produce.
pub open spec fn initial_schema_spec() -> SchemaView {
    SchemaView {
        tables: seq![threads_table_spec(), messages_table_spec(), settings_table_spec()],
        indexes: seq![messages_thread_index_spec()],
    }
}

/// On a fresh store, the application's migrations succeed and leave exactly
/// the three tables and the one index, at watermark 1.
pub proof fn fresh_store_gets_initial_schema()
    ensures
        run_from(SchemaView::empty(), 0, initial_migrations_spec()) == (RunOutcome {
            schema: initial_schema_spec(),
            watermark: 1,
            result: Ok(1),
        }),
{
    reveal_strlit("threads");
    reveal_strlit("messages");
    reveal_strlit("settings");
    reveal_strlit("idx_messages_thread_id");
    let sts = initial_statements_spec();
    let s0 = SchemaView::empty();
    let s1 = SchemaView { tables: seq![threads_table_spec()], indexes: Seq::empty() };
    let s2 = SchemaView {
        tables: seq![threads_table_spec(), messages_table_spec()],
        indexes: Seq::empty(),
    };
    let s3 = SchemaView {
        tables: seq![threads_table_spec(), messages_table_spec()],
        indexes: seq![messages_thread_index_spec()],
    };
    let s4 = initial_schema_spec();
    assert(apply_batch_spec(s0, sts) == Ok::<SchemaView, SchemaError>(s4)) by {
        assert(!s0.has_table("threads"@));
        assert(s0.tables.push(threads_table_spec()) =~= s1.tables);
        assert(sts.drop_first() =~= seq![sts[1], sts[2], sts[3]]);
        assert(!s1.has_table("messages"@)) by {
            assert("threads"@.len() != "messages"@.len());
        }
        assert(s1.tables.push(messages_table_spec()) =~= s2.tables);
        assert(sts.drop_first().drop_first() =~= seq![sts[2], sts[3]]);
        assert(!s2.has_index("idx_messages_thread_id"@));
        assert(s2.tables[1].name == "messages"@);
        assert(s2.has_table("messages"@));
        assert(s2.indexes.push(messages_thread_index_spec()) =~= s3.indexes);
        assert(sts.drop_first().drop_first().drop_first() =~= seq![sts[3]]);
        assert(!s3.has_table("settings"@)) by {
            assert("threads"@.len() != "settings"@.len());
            assert("messages"@[0] != "settings"@[0]);
        }
        assert(s3.tables.push(settings_table_spec()) =~= s4.tables);
        assert(seq![sts[3]].drop_first() =~= Seq::<StatementView>::empty());
        reveal_with_fuel(apply_batch_spec, 5);
    }
    let migs = initial_migrations_spec();
    assert(migs.drop_first() =~= Seq::<MigrationView>::empty());
    assert(run_from(s4, 1, migs.drop_first()) == (RunOutcome {
        schema: s4,
        watermark: 1,
        result: Ok(0),
    }));
}

fn text_column(name: &str, not_null: bool, primary_key: bool, default_now: bool) -> (r: Column)
    ensures
        r@ == column_spec(name@, not_null, primary_key, default_now),
{
    Column { name: String::from_str(name), not_null, primary_key, default_now }
}

/// The definition of the `threads` table.
pub fn threads_table() -> (r: TableDef)
    ensures
        r@ == threads_table_spec(),
{
    let columns = vec![
        text_column("id", true, true, false),
        text_column("title", true, false, false),
        text_column("workspace_id", false, false, false),
        text_column("model", false, false, false),
        text_column("mode", false, false, false),
        text_column("created_at", true, false, true),
        text_column("updated_at", true, false, true),
    ];
    let r = TableDef { name: String::from_str("threads"), columns, foreign_keys: Vec::new() };
    assert(r@.columns =~= threads_table_spec().columns);
    assert(r@.foreign_keys =~= threads_table_spec().foreign_keys);
    r
}

/// The definition of the `messages` table.
pub fn messages_table() -> (r: TableDef)
    ensures
        r@ == messages_table_spec(),
{
    let columns = vec![
        text_column("id", true, true, false),
        text_column("thread_id", true, false, false),
        text_column("role", true, false, false),
        text_column("content", false, false, false),
        text_column("tool_calls", false, false, false),
        text_column("timestamp", true, false, true),
    ];
    let foreign_keys = vec![
        ForeignKey {
            column: String::from_str("thread_id"),
            ref_table: String::from_str("threads"),
            ref_column: String::from_str("id"),
            cascade_on_delete: true,
        },
    ];
    let r = TableDef { name: String::from_str("messages"), columns, foreign_keys };
    assert(r@.columns =~= messages_table_spec().columns);
    assert(r@.foreign_keys =~= messages_table_spec().foreign_keys);
    r
}

/// The definition of the index of messages by thread.
pub fn messages_thread_index() -> (r: IndexDef)
    ensures
        r@ == messages_thread_index_spec(),
{
    IndexDef {
        name: String::from_str("idx_messages_thread_id"),
        table: String::from_str("messages"),
        column: String::from_str("thread_id"),
    }
}

/// The definition of the `settings` table.
pub fn settings_table() -> (r: TableDef)
    ensures
        r@ == settings_table_spec(),
{
    let columns = vec![
        text_column("key", true, true, false),
        text_column("value", true, false, false),
        text_column("updated_at", true, false, true),
    ];
    let r = TableDef { name: String::from_str("settings"), columns, foreign_keys: Vec::new() };
    assert(r@.columns =~= settings_table_spec().columns);
    assert(r@.foreign_keys =~= settings_table_spec().foreign_keys);
    r
}

/// The application's migrations, in order.
pub fn initial_migrations() -> (r: Vec<Migration>)
    ensures
        migration_views(r@) == initial_migrations_spec(),
{
    let statements = vec![
        Statement::CreateTable(threads_table()),
        Statement::CreateTable(messages_table()),
        Statement::CreateIndex(messages_thread_index()),
        Statement::CreateTable(settings_table()),
    ];
    let m = Migration {
        version: 1,
        description: String::from_str("create_threads_and_messages_tables"),
        statements,
        kind: MigrationKind::Up,
    };
    assert(m@.statements =~= initial_statements_spec());
    let r = vec![m];
    assert(migration_views(r@) =~= initial_migrations_spec());
    r
}

} // verus!
