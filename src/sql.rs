use vstd::prelude::*;
use vstd::string::StringExecFns;
use crate::schema::{
    Column, ColumnView, ForeignKey, ForeignKeyView, IndexDef, IndexView, Statement, StatementView,
    TableDef, TableView,
};
use crate::migration::{statement_views, Migration};

verus! {

/// `parts` with `sep` between each two neighbours.
pub open spec fn join_spec(parts: Seq<Seq<char>>, sep: Seq<char>) -> Seq<char>
    decreases parts.len(),
{
    if parts.len() == 0 {
        Seq::empty()
    } else if parts.len() == 1 {
        parts[0]
    } else {
        join_spec(parts.drop_last(), sep) + sep + parts.last()
    }
}

pub open spec fn column_sql(c: ColumnView) -> Seq<char> {
    c.name + " TEXT"@ + (if c.primary_key {
        " PRIMARY KEY"@
    } else {
        Seq::empty()
    }) + (if c.not_null {
        " NOT NULL"@
    } else {
        Seq::empty()
    }) + (if c.default_now {
        " DEFAULT (datetime('now'))"@
    } else {
        Seq::empty()
    })
}

pub open spec fn foreign_key_sql(f: ForeignKeyView) -> Seq<char> {
    "FOREIGN KEY ("@ + f.column + ") REFERENCES "@ + f.ref_table + "("@ + f.ref_column + ")"@
        + (if f.cascade_on_delete {
        " ON DELETE CASCADE"@
    } else {
        Seq::empty()
    })
}

/// The clauses of a table definition: its columns, then its foreign keys.
pub open spec fn table_clauses(t: TableView) -> Seq<Seq<char>> {
    t.columns.map_values(|c: ColumnView| column_sql(c)) + t.foreign_keys.map_values(
        |f: ForeignKeyView| foreign_key_sql(f),
    )
}

pub open spec fn statement_sql(st: StatementView) -> Seq<char> {
    match st {
        StatementView::CreateTable(t) => "CREATE TABLE IF NOT EXISTS "@ + t.name + " ("@ + join_spec(
            table_clauses(t),
            ", "@,
        ) + ");"@,
        StatementView::CreateIndex(i) => "CREATE INDEX IF NOT EXISTS "@ + i.name + " ON "@ + i.table
            + "("@ + i.column + ");"@,
    }
}

/// A batch as SQL text: one statement per line.
pub open spec fn batch_sql(sts: Seq<StatementView>) -> Seq<char> {
    join_spec(sts.map_values(|st: StatementView| statement_sql(st)), "\n"@)
}

pub open spec fn string_views(v: Seq<String>) -> Seq<Seq<char>> {
    v.map_values(|s: String| s@)
}

/// Joins `parts` with `sep` between each two neighbours.
pub fn join(parts: &Vec<String>, sep: &str) -> (r: String)
    ensures
        r@ == join_spec(string_views(parts@), sep@),
{
    let ghost views = string_views(parts@);
    let mut r = String::new();
    let mut i: usize = 0;
    while i < parts.len()
        invariant
            i <= parts@.len(),
            views == string_views(parts@),
            r@ == join_spec(views.take(i as int), sep@),
        decreases parts@.len() - i,
    {
        proof {
            assert(views.take(i + 1).drop_last() =~= views.take(i as int));
        }
        if i > 0 {
            r.append(sep);
        }
        r.append(parts[i].as_str());
        i = i + 1;
    }
    assert(views.take(i as int) =~= views);
    r
}

fn column_to_sql(c: &Column) -> (r: String)
    ensures
        r@ == column_sql(c@),
{
    let mut r = String::from_str(c.name.as_str());
    r.append(" TEXT");
    if c.primary_key {
        r.append(" PRIMARY KEY");
    }
    if c.not_null {
        r.append(" NOT NULL");
    }
    if c.default_now {
        r.append(" DEFAULT (datetime('now'))");
    }
    r
}

fn foreign_key_to_sql(f: &ForeignKey) -> (r: String)
    ensures
        r@ == foreign_key_sql(f@),
{
    let mut r = String::from_str("FOREIGN KEY (");
    r.append(f.column.as_str());
    r.append(") REFERENCES ");
    r.append(f.ref_table.as_str());
    r.append("(");
    r.append(f.ref_column.as_str());
    r.append(")");
    if f.cascade_on_delete {
        r.append(" ON DELETE CASCADE");
    }
    r
}

fn table_to_sql(t: &TableDef) -> (r: String)
    ensures
        r@ == statement_sql(StatementView::CreateTable(t@)),
{
    let mut clauses: Vec<String> = Vec::new();
    let mut i: usize = 0;
    while i < t.columns.len()
        invariant
            i <= t.columns@.len(),
            string_views(clauses@) == t@.columns.take(i as int).map_values(
                |c: ColumnView| column_sql(c),
            ),
        decreases t.columns@.len() - i,
    {
        let c = column_to_sql(&t.columns[i]);
        let ghost pre = clauses@;
        clauses.push(c);
        proof {
            assert(string_views(clauses@) =~= string_views(pre).push(c@));
            assert(t@.columns.take(i + 1) =~= t@.columns.take(i as int).push(t@.columns[i as int]));
            assert(t@.columns.take(i + 1).map_values(|c: ColumnView| column_sql(c)) =~= t@.columns.take(
                i as int,
            ).map_values(|c: ColumnView| column_sql(c)).push(column_sql(t@.columns[i as int])));
        }
        i = i + 1;
    }
    assert(t@.columns.take(i as int) =~= t@.columns);
    let mut j: usize = 0;
    while j < t.foreign_keys.len()
        invariant
            j <= t.foreign_keys@.len(),
            string_views(clauses@) == t@.columns.map_values(|c: ColumnView| column_sql(c))
                + t@.foreign_keys.take(j as int).map_values(|f: ForeignKeyView| foreign_key_sql(f)),
        decreases t.foreign_keys@.len() - j,
    {
        let f = foreign_key_to_sql(&t.foreign_keys[j]);
        let ghost pre = clauses@;
        clauses.push(f);
        proof {
            assert(string_views(clauses@) =~= string_views(pre).push(f@));
            assert(t@.foreign_keys.take(j + 1).map_values(|f: ForeignKeyView| foreign_key_sql(f))
                =~= t@.foreign_keys.take(j as int).map_values(
                |f: ForeignKeyView| foreign_key_sql(f),
            ).push(foreign_key_sql(t@.foreign_keys[j as int])));
        }
        j = j + 1;
    }
    assert(t@.foreign_keys.take(j as int) =~= t@.foreign_keys);
    assert(string_views(clauses@) =~= table_clauses(t@));
    let mut r = String::from_str("CREATE TABLE IF NOT EXISTS ");
    r.append(t.name.as_str());
    r.append(" (");
    let body = join(&clauses, ", ");
    r.append(body.as_str());
    r.append(");");
    r
}

fn index_to_sql(i: &IndexDef) -> (r: String)
    ensures
        r@ == statement_sql(StatementView::CreateIndex(i@)),
{
    let mut r = String::from_str("CREATE INDEX IF NOT EXISTS ");
    r.append(i.name.as_str());
    r.append(" ON ");
    r.append(i.table.as_str());
    r.append("(");
    r.append(i.column.as_str());
    r.append(");");
    r
}

impl Statement {
    /// The statement as SQL text.
    pub fn to_sql(&self) -> (r: String)
        ensures
            r@ == statement_sql(self@),
    {
        match self {
            Statement::CreateTable(t) => table_to_sql(t),
            Statement::CreateIndex(i) => index_to_sql(i),
        }
    }
}

/// A batch of statements as SQL text, one statement per line.
pub fn batch_to_sql(sts: &Vec<Statement>) -> (r: String)
    ensures
        r@ == batch_sql(statement_views(sts@)),
{
    let mut lines: Vec<String> = Vec::new();
    let mut i: usize = 0;
    while i < sts.len()
        invariant
            i <= sts@.len(),
            string_views(lines@) == statement_views(sts@).take(i as int).map_values(
                |st: StatementView| statement_sql(st),
            ),
        decreases sts@.len() - i,
    {
        let line = sts[i].to_sql();
        let ghost pre = lines@;
        lines.push(line);
        proof {
            assert(string_views(lines@) =~= string_views(pre).push(line@));
            assert(statement_views(sts@).take(i + 1).map_values(
                |st: StatementView| statement_sql(st),
            ) =~= statement_views(sts@).take(i as int).map_values(
                |st: StatementView| statement_sql(st),
            ).push(statement_sql(sts@[i as int]@)));
        }
        i = i + 1;
    }
    assert(statement_views(sts@).take(i as int) =~= statement_views(sts@));
    join(&lines, "\n")
}

impl Migration {
    /// The migration's batch as SQL text, one statement per line.
    pub fn sql(&self) -> (r: String)
        ensures
            r@ == batch_sql(self@.statements),
    {
        batch_to_sql(&self.statements)
    }
}

} // verus!
