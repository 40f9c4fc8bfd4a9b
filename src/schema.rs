use vstd::prelude::*;

verus! {

/// A TEXT column of a table.
pub struct Column {
    pub name: String,
    pub not_null: bool,
    pub primary_key: bool,
    /// Whether the column defaults to the time of insertion.
    pub default_now: bool,
}

/// `column` refers to `ref_column` of `ref_table`.
pub struct ForeignKey {
    pub column: String,
    pub ref_table: String,
    pub ref_column: String,
    pub cascade_on_delete: bool,
}

pub struct TableDef {
    pub name: String,
    pub columns: Vec<Column>,
    pub foreign_keys: Vec<ForeignKey>,
}

/// A secondary index on one column of a table.
pub struct IndexDef {
    pub name: String,
    pub table: String,
    pub column: String,
}

/// A schema statement. Both kinds are guarded: creating something that
/// already exists (by name) does nothing.
pub enum Statement {
    CreateTable(TableDef),
    CreateIndex(IndexDef),
}

/// The tables and indexes of a store, in order of creation.
pub struct Schema {
    pub tables: Vec<TableDef>,
    pub indexes: Vec<IndexDef>,
}

#[derive(Debug, Clone, Copy, PartialEq, Eq, Structural)]
pub enum SchemaError {
    /// An index names a table that does not exist.
    NoSuchTable,
}

pub struct ColumnView {
    pub name: Seq<char>,
    pub not_null: bool,
    pub primary_key: bool,
    pub default_now: bool,
}

pub struct ForeignKeyView {
    pub column: Seq<char>,
    pub ref_table: Seq<char>,
    pub ref_column: Seq<char>,
    pub cascade_on_delete: bool,
}

pub struct TableView {
    pub name: Seq<char>,
    pub columns: Seq<ColumnView>,
    pub foreign_keys: Seq<ForeignKeyView>,
}

pub struct IndexView {
    pub name: Seq<char>,
    pub table: Seq<char>,
    pub column: Seq<char>,
}

pub enum StatementView {
    CreateTable(TableView),
    CreateIndex(IndexView),
}

pub struct SchemaView {
    pub tables: Seq<TableView>,
    pub indexes: Seq<IndexView>,
}

impl View for Column {
    type V = ColumnView;

    open spec fn view(&self) -> ColumnView {
        ColumnView {
            name: self.name@,
            not_null: self.not_null,
            primary_key: self.primary_key,
            default_now: self.default_now,
        }
    }
}

impl View for ForeignKey {
    type V = ForeignKeyView;

    open spec fn view(&self) -> ForeignKeyView {
        ForeignKeyView {
            column: self.column@,
            ref_table: self.ref_table@,
            ref_column: self.ref_column@,
            cascade_on_delete: self.cascade_on_delete,
        }
    }
}

impl View for TableDef {
    type V = TableView;

    open spec fn view(&self) -> TableView {
        TableView {
            name: self.name@,
            columns: self.columns@.map_values(|c: Column| c@),
            foreign_keys: self.foreign_keys@.map_values(|f: ForeignKey| f@),
        }
    }
}

impl View for IndexDef {
    type V = IndexView;

    open spec fn view(&self) -> IndexView {
        IndexView { name: self.name@, table: self.table@, column: self.column@ }
    }
}

impl View for Statement {
    type V = StatementView;

    open spec fn view(&self) -> StatementView {
        match self {
            Statement::CreateTable(t) => StatementView::CreateTable(t@),
            Statement::CreateIndex(i) => StatementView::CreateIndex(i@),
        }
    }
}

impl View for Schema {
    type V = SchemaView;

    open spec fn view(&self) -> SchemaView {
        SchemaView {
            tables: self.tables@.map_values(|t: TableDef| t@),
            indexes: self.indexes@.map_values(|i: IndexDef| i@),
        }
    }
}

impl SchemaView {
    pub open spec fn empty() -> SchemaView {
        SchemaView { tables: Seq::empty(), indexes: Seq::empty() }
    }

    pub open spec fn has_table(self, name: Seq<char>) -> bool {
        exists|i: int| 0 <= i < self.tables.len() && #[trigger] self.tables[i].name == name
    }

    pub open spec fn has_index(self, name: Seq<char>) -> bool {
        exists|i: int| 0 <= i < self.indexes.len() && #[trigger] self.indexes[i].name == name
    }

    /// Whether `self` holds the tables and indexes of `s` first, in the same order.
    pub open spec fn extends(self, s: SchemaView) -> bool {
        &&& s.tables.len() <= self.tables.len()
        &&& s.indexes.len() <= self.indexes.len()
        &&& self.tables.take(s.tables.len() as int) == s.tables
        &&& self.indexes.take(s.indexes.len() as int) == s.indexes
    }
}

/// The effect of one statement on a schema.
pub open spec fn apply_statement_spec(s: SchemaView, st: StatementView) -> Result<
    SchemaView,
    SchemaError,
> {
    match st {
        StatementView::CreateTable(t) => if s.has_table(t.name) {
            Ok(s)
        } else {
            Ok(SchemaView { tables: s.tables.push(t), ..s })
        },
        StatementView::CreateIndex(ix) => if s.has_index(ix.name) {
            Ok(s)
        } else if !s.has_table(ix.table) {
            Err(SchemaError::NoSuchTable)
        } else {
            Ok(SchemaView { indexes: s.indexes.push(ix), ..s })
        },
    }
}

/// The effect of a batch of statements, run in order until the first failure.
pub open spec fn apply_batch_spec(s: SchemaView, sts: Seq<StatementView>) -> Result<
    SchemaView,
    SchemaError,
>
    decreases sts.len(),
{
    if sts.len() == 0 {
        Ok(s)
    } else {
        match apply_statement_spec(s, sts[0]) {
            Ok(s1) => apply_batch_spec(s1, sts.drop_first()),
            Err(e) => Err(e),
        }
    }
}

/// A successful batch only adds to a schema.
pub proof fn lemma_batch_extends(s: SchemaView, sts: Seq<StatementView>)
    requires
        apply_batch_spec(s, sts) is Ok,
    ensures
        apply_batch_spec(s, sts)->Ok_0.extends(s),
    decreases sts.len(),
{
    if sts.len() > 0 {
        let s1 = apply_statement_spec(s, sts[0])->Ok_0;
        assert(s1.tables.take(s.tables.len() as int) =~= s.tables);
        assert(s1.indexes.take(s.indexes.len() as int) =~= s.indexes);
        lemma_batch_extends(s1, sts.drop_first());
        let r = apply_batch_spec(s, sts)->Ok_0;
        assert(r.tables.take(s.tables.len() as int) =~= r.tables.take(s1.tables.len() as int).take(
            s.tables.len() as int,
        ));
        assert(r.indexes.take(s.indexes.len() as int) =~= r.indexes.take(
            s1.indexes.len() as int,
        ).take(s.indexes.len() as int));
    } else {
        assert(s.tables.take(s.tables.len() as int) =~= s.tables);
        assert(s.indexes.take(s.indexes.len() as int) =~= s.indexes);
    }
}

/// Whether what each statement of `sts` would create is already present in `s`.
pub open spec fn all_present(s: SchemaView, sts: Seq<StatementView>) -> bool {
    forall|i: int|
        0 <= i < sts.len() ==> match #[trigger] sts[i] {
            StatementView::CreateTable(t) => s.has_table(t.name),
            StatementView::CreateIndex(ix) => s.has_index(ix.name),
        }
}

proof fn lemma_extends_keeps_names(r: SchemaView, s: SchemaView)
    requires
        r.extends(s),
    ensures
        forall|n: Seq<char>| s.has_table(n) ==> r.has_table(n),
        forall|n: Seq<char>| s.has_index(n) ==> r.has_index(n),
{
    assert forall|n: Seq<char>| s.has_table(n) implies r.has_table(n) by {
        let j = choose|j: int| 0 <= j < s.tables.len() && #[trigger] s.tables[j].name == n;
        assert(r.tables.take(s.tables.len() as int)[j] == r.tables[j]);
    }
    assert forall|n: Seq<char>| s.has_index(n) implies r.has_index(n) by {
        let j = choose|j: int| 0 <= j < s.indexes.len() && #[trigger] s.indexes[j].name == n;
        assert(r.indexes.take(s.indexes.len() as int)[j] == r.indexes[j]);
    }
}

proof fn lemma_batch_creates_all(s: SchemaView, sts: Seq<StatementView>)
    requires
        apply_batch_spec(s, sts) is Ok,
    ensures
        all_present(apply_batch_spec(s, sts)->Ok_0, sts),
    decreases sts.len(),
{
    if sts.len() > 0 {
        let r = apply_batch_spec(s, sts)->Ok_0;
        let s1 = apply_statement_spec(s, sts[0])->Ok_0;
        let rest = sts.drop_first();
        lemma_batch_creates_all(s1, rest);
        lemma_batch_extends(s1, rest);
        lemma_extends_keeps_names(r, s1);
        match sts[0] {
            StatementView::CreateTable(t) => {
                if !s.has_table(t.name) {
                    assert(s1.tables[s.tables.len() as int].name == t.name);
                }
            },
            StatementView::CreateIndex(ix) => {
                if !s.has_index(ix.name) {
                    assert(s1.indexes[s.indexes.len() as int].name == ix.name);
                }
            },
        }
        assert forall|i: int| 0 < i < sts.len() implies match #[trigger] sts[i] {
            StatementView::CreateTable(t) => r.has_table(t.name),
            StatementView::CreateIndex(ix) => r.has_index(ix.name),
        } by {
            assert(sts[i] == rest[i - 1]);
        }
    }
}

proof fn lemma_batch_all_present(s: SchemaView, sts: Seq<StatementView>)
    requires
        all_present(s, sts),
    ensures
        apply_batch_spec(s, sts) == Ok::<SchemaView, SchemaError>(s),
    decreases sts.len(),
{
    if sts.len() > 0 {
        let rest = sts.drop_first();
        assert(match sts[0] {
            StatementView::CreateTable(t) => s.has_table(t.name),
            StatementView::CreateIndex(ix) => s.has_index(ix.name),
        });
        assert forall|i: int| 0 <= i < rest.len() implies match #[trigger] rest[i] {
            StatementView::CreateTable(t) => s.has_table(t.name),
            StatementView::CreateIndex(ix) => s.has_index(ix.name),
        } by {
            assert(rest[i] == sts[i + 1]);
        }
        lemma_batch_all_present(s, rest);
    }
}

/// Applying a batch again to the schema that it produced changes nothing:
/// every statement finds what it would create already there.
pub proof fn batch_is_idempotent(s: SchemaView, sts: Seq<StatementView>)
    requires
        apply_batch_spec(s, sts) is Ok,
    ensures
        apply_batch_spec(apply_batch_spec(s, sts)->Ok_0, sts) == apply_batch_spec(s, sts),
{
    lemma_batch_creates_all(s, sts);
    lemma_batch_all_present(apply_batch_spec(s, sts)->Ok_0, sts);
}

impl Schema {
    /// A schema with no tables and no indexes.
    pub fn new() -> (r: Schema)
        ensures
            r@ == SchemaView::empty(),
    {
        let r = Schema { tables: Vec::new(), indexes: Vec::new() };
        assert(r@.tables =~= Seq::<TableView>::empty());
        assert(r@.indexes =~= Seq::<IndexView>::empty());
        r
    }

    /// Whether a table of this name exists.
    pub fn contains_table(&self, name: &String) -> (r: bool)
        ensures
            r == self@.has_table(name@),
    {
        let mut i: usize = 0;
        while i < self.tables.len()
            invariant
                i <= self.tables@.len(),
                forall|j: int| 0 <= j < i ==> self.tables@[j].name@ != name@,
            decreases self.tables@.len() - i,
        {
            if self.tables[i].name == *name {
                assert(self@.tables[i as int].name == name@);
                return true;
            }
            i = i + 1;
        }
        assert forall|j: int| 0 <= j < self@.tables.len() implies #[trigger] self@.tables[j].name
            != name@ by {
            assert(self@.tables[j] == self.tables@[j]@);
        }
        false
    }

    /// Whether an index of this name exists.
    pub fn contains_index(&self, name: &String) -> (r: bool)
        ensures
            r == self@.has_index(name@),
    {
        let mut i: usize = 0;
        while i < self.indexes.len()
            invariant
                i <= self.indexes@.len(),
                forall|j: int| 0 <= j < i ==> self.indexes@[j].name@ != name@,
            decreases self.indexes@.len() - i,
        {
            if self.indexes[i].name == *name {
                assert(self@.indexes[i as int].name == name@);
                return true;
            }
            i = i + 1;
        }
        assert forall|j: int| 0 <= j < self@.indexes.len() implies #[trigger] self@.indexes[j].name
            != name@ by {
            assert(self@.indexes[j] == self.indexes@[j]@);
        }
        false
    }

    /// Runs one statement.
    pub fn apply_statement(&mut self, st: Statement) -> (r: Result<(), SchemaError>)
        ensures
            r is Ok <==> apply_statement_spec(old(self)@, st@) is Ok,
            r is Ok ==> final(self)@ == apply_statement_spec(old(self)@, st@)->Ok_0,
            r matches Err(e) ==> apply_statement_spec(old(self)@, st@) == Err::<
                SchemaView,
                SchemaError,
            >(e) && final(self)@ == old(self)@,
    {
        match st {
            Statement::CreateTable(t) => {
                if !self.contains_table(&t.name) {
                    let ghost pre = self@;
                    let ghost tv = t@;
                    self.tables.push(t);
                    assert(self@.tables =~= pre.tables.push(tv));
                }
                Ok(())
            },
            Statement::CreateIndex(ix) => {
                if self.contains_index(&ix.name) {
                    Ok(())
                } else if !self.contains_table(&ix.table) {
                    Err(SchemaError::NoSuchTable)
                } else {
                    let ghost pre = self@;
                    let ghost iv = ix@;
                    self.indexes.push(ix);
                    assert(self@.indexes =~= pre.indexes.push(iv));
                    Ok(())
                }
            },
        }
    }
}

} // verus!
