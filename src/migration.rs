use vstd::prelude::*;
use crate::schema::{apply_batch_spec, Schema, SchemaError, SchemaView, Statement, StatementView};
use crate::store::Store;

verus! {

/// Direction of a migration. Only forward migrations exist.
#[derive(Debug, Clone, Copy, PartialEq, Eq, Structural)]
pub enum MigrationKind {
    Up,
}

/// A versioned, forward-only batch of schema statements.
pub struct Migration {
    pub version: u64,
    pub description: String,
    pub statements: Vec<Statement>,
    pub kind: MigrationKind,
}

pub struct MigrationView {
    pub version: u64,
    pub description: Seq<char>,
    pub statements: Seq<StatementView>,
    pub kind: MigrationKind,
}

impl View for Migration {
    type V = MigrationView;

    open spec fn view(&self) -> MigrationView {
        MigrationView {
            version: self.version,
            description: self.description@,
            statements: statement_views(self.statements@),
            kind: self.kind,
        }
    }
}

pub open spec fn statement_views(sts: Seq<Statement>) -> Seq<StatementView> {
    sts.map_values(|st: Statement| st@)
}

pub open spec fn migration_views(migs: Seq<Migration>) -> Seq<MigrationView> {
    migs.map_values(|m: Migration| m@)
}

#[derive(Debug, Clone, Copy, PartialEq, Eq, Structural)]
pub enum MigrationError {
    /// The versions of the migration list do not strictly increase.
    OutOfOrder,
    /// The batch of migration `version` failed; it was rolled back and not recorded.
    Failed { version: u64, cause: SchemaError },
}

/// A store: its schema, the highest migration version applied to it, and its rows.
pub struct Database {
    pub schema: Schema,
    pub watermark: u64,
    pub data: Store,
}

/// Where a run of migrations leaves a schema and its watermark, and what it
/// reports: the number of migrations applied, or the error that stopped it.
pub struct RunOutcome {
    pub schema: SchemaView,
    pub watermark: u64,
    pub result: Result<nat, MigrationError>,
}

impl RunOutcome {
    pub open spec fn plus(self, n: nat) -> RunOutcome {
        RunOutcome {
            result: match self.result {
                Ok(c) => Ok(c + n),
                Err(e) => Err(e),
            },
            ..self
        }
    }
}

pub open spec fn versions_increasing(migs: Seq<MigrationView>) -> bool {
    forall|i: int, j: int| 0 <= i < j < migs.len() ==> migs[i].version < migs[j].version
}

/// Runs, in order, each migration above the watermark; each one that succeeds
/// raises the watermark to its version. The first failure stops the run.
pub open spec fn run_from(s: SchemaView, w: u64, migs: Seq<MigrationView>) -> RunOutcome
    decreases migs.len(),
{
    if migs.len() == 0 {
        RunOutcome { schema: s, watermark: w, result: Ok(0) }
    } else if migs[0].version <= w {
        run_from(s, w, migs.drop_first())
    } else {
        match apply_batch_spec(s, migs[0].statements) {
            Ok(s1) => run_from(s1, migs[0].version, migs.drop_first()).plus(1),
            Err(e) => RunOutcome {
                schema: s,
                watermark: w,
                result: Err(MigrationError::Failed { version: migs[0].version, cause: e }),
            },
        }
    }
}

/// A successful run never lowers the watermark, and leaves every migration of
/// the list at or below the watermark it ends with.
pub proof fn lemma_run_covers_all(s: SchemaView, w: u64, migs: Seq<MigrationView>)
    requires
        versions_increasing(migs),
        run_from(s, w, migs).result is Ok,
    ensures
        w <= run_from(s, w, migs).watermark,
        forall|i: int| 0 <= i < migs.len() ==> migs[i].version <= run_from(s, w, migs).watermark,
    decreases migs.len(),
{
    if migs.len() > 0 {
        let rest = migs.drop_first();
        assert(versions_increasing(rest)) by {
            assert forall|i: int, j: int| 0 <= i < j < rest.len() implies rest[i].version
                < rest[j].version by {
                assert(rest[i] == migs[i + 1] && rest[j] == migs[j + 1]);
            }
        }
        if migs[0].version <= w {
            lemma_run_covers_all(s, w, rest);
        } else {
            let s1 = apply_batch_spec(s, migs[0].statements)->Ok_0;
            lemma_run_covers_all(s1, migs[0].version, rest);
        }
        let wf = run_from(s, w, migs).watermark;
        assert forall|i: int| 0 <= i < migs.len() implies migs[i].version <= wf by {
            if i > 0 {
                assert(migs[i] == rest[i - 1]);
            }
        }
    }
}

/// A run in which every migration is at or below the watermark changes nothing.
pub proof fn lemma_run_below_watermark(s: SchemaView, w: u64, migs: Seq<MigrationView>)
    requires
        forall|i: int| 0 <= i < migs.len() ==> migs[i].version <= w,
    ensures
        run_from(s, w, migs) == (RunOutcome { schema: s, watermark: w, result: Ok(0) }),
    decreases migs.len(),
{
    if migs.len() > 0 {
        let rest = migs.drop_first();
        assert forall|i: int| 0 <= i < rest.len() implies rest[i].version <= w by {
            assert(rest[i] == migs[i + 1]);
        }
        lemma_run_below_watermark(s, w, rest);
    }
}

/// Running a list of migrations a second time, after a run that succeeded,
/// applies nothing and leaves the schema and the watermark as they are.
pub proof fn rerun_is_noop(s: SchemaView, w: u64, migs: Seq<MigrationView>)
    requires
        versions_increasing(migs),
        run_from(s, w, migs).result is Ok,
    ensures
        ({
            let o = run_from(s, w, migs);
            run_from(o.schema, o.watermark, migs) == (RunOutcome {
                schema: o.schema,
                watermark: o.watermark,
                result: Ok(0),
            })
        }),
{
    lemma_run_covers_all(s, w, migs);
    let o = run_from(s, w, migs);
    lemma_run_below_watermark(o.schema, o.watermark, migs);
}

/// With a single migration of version 1 whose batch succeeds, a store at
/// watermark 0 ends at watermark 1 after one migration is applied, and a store
/// already at watermark 1 stays there with nothing applied and its schema unchanged.
pub proof fn single_migration_watermark(s: SchemaView, m: MigrationView)
    requires
        m.version == 1,
        apply_batch_spec(s, m.statements) is Ok,
    ensures
        run_from(s, 0, seq![m]) == (RunOutcome {
            schema: apply_batch_spec(s, m.statements)->Ok_0,
            watermark: 1,
            result: Ok(1),
        }),
        forall|s2: SchemaView|
            run_from(s2, 1, seq![m]) == (RunOutcome { schema: s2, watermark: 1, result: Ok(0) }),
{
    let s1 = apply_batch_spec(s, m.statements)->Ok_0;
    assert(seq![m].drop_first() =~= Seq::<MigrationView>::empty());
    assert(run_from(s1, 1, seq![m].drop_first()) == (RunOutcome {
        schema: s1,
        watermark: 1,
        result: Ok(0),
    }));
    assert forall|s2: SchemaView|
        run_from(s2, 1, seq![m]) == (RunOutcome { schema: s2, watermark: 1, result: Ok(0) }) by {
        assert(run_from(s2, 1, seq![m].drop_first()) == (RunOutcome {
            schema: s2,
            watermark: 1,
            result: Ok(0),
        }));
    }
}

impl Schema {
    /// Runs a batch as one unit: all of it takes effect, or none of it.
    pub fn apply_batch(&mut self, sts: Vec<Statement>) -> (r: Result<(), SchemaError>)
        ensures
            r is Ok <==> apply_batch_spec(old(self)@, statement_views(sts@)) is Ok,
            r is Ok ==> final(self)@ == apply_batch_spec(old(self)@, statement_views(sts@))->Ok_0,
            r matches Err(e) ==> apply_batch_spec(old(self)@, statement_views(sts@)) == Err::<
                SchemaView,
                SchemaError,
            >(e) && final(self)@ == old(self)@,
    {
        let ghost orig = self@;
        let ghost all = statement_views(sts@);
        let tl = self.tables.len();
        let il = self.indexes.len();
        let mut rest = sts;
        assert(orig.tables.take(tl as int) =~= orig.tables);
        assert(orig.indexes.take(il as int) =~= orig.indexes);
        while rest.len() > 0
            invariant
                apply_batch_spec(orig, all) == apply_batch_spec(self@, statement_views(rest@)),
                self@.extends(orig),
                tl == orig.tables.len(),
                il == orig.indexes.len(),
                all == statement_views(sts@),
                orig == old(self)@,
            decreases rest.len(),
        {
            let ghost cur = self@;
            let ghost before = rest@;
            let st = rest.remove(0);
            let ghost stv = st@;
            proof {
                assert(statement_views(rest@) =~= statement_views(before).drop_first());
                assert(statement_views(before)[0] == stv);
            }
            match self.apply_statement(st) {
                Ok(()) => {
                    proof {
                        let s1 = self@;
                        assert(s1.tables.take(cur.tables.len() as int) =~= cur.tables);
                        assert(s1.indexes.take(cur.indexes.len() as int) =~= cur.indexes);
                        assert(s1.tables.take(orig.tables.len() as int) =~= s1.tables.take(
                            cur.tables.len() as int,
                        ).take(orig.tables.len() as int));
                        assert(s1.indexes.take(orig.indexes.len() as int) =~= s1.indexes.take(
                            cur.indexes.len() as int,
                        ).take(orig.indexes.len() as int));
                    }
                },
                Err(e) => {
                    self.tables.truncate(tl);
                    self.indexes.truncate(il);
                    proof {
                        assert(self@.tables =~= cur.tables.take(tl as int));
                        assert(self@.indexes =~= cur.indexes.take(il as int));
                        assert(self@ == orig);
                    }
                    return Err(e);
                },
            }
        }
        Ok(())
    }
}

/// Whether the versions of `migs` strictly increase.
pub fn check_versions_increasing(migs: &Vec<Migration>) -> (r: bool)
    ensures
        r == versions_increasing(migration_views(migs@)),
{
    let ghost mv = migration_views(migs@);
    if migs.len() == 0 {
        return true;
    }
    let mut k: usize = 0;
    while k < migs.len() - 1
        invariant
            k < migs@.len(),
            mv == migration_views(migs@),
            forall|i: int, j: int| 0 <= i < j <= k ==> mv[i].version < mv[j].version,
        decreases migs@.len() - k,
    {
        if migs[k].version >= migs[k + 1].version {
            assert(mv[k as int].version >= mv[k + 1].version);
            return false;
        }
        k = k + 1;
    }
    true
}

impl Database {
    /// A new store: no tables, watermark 0, no rows.
    pub fn new() -> (r: Database)
        ensures
            r.schema@ == SchemaView::empty(),
            r.watermark == 0,
            r.data.wf(),
            r.data.threads@.len() == 0,
            r.data.messages@.len() == 0,
            r.data.settings@.len() == 0,
    {
        Database { schema: Schema::new(), watermark: 0, data: Store::new() }
    }

    /// Brings the store up to date: applies, in ascending order, each
    /// migration whose version is above the watermark, each batch as one unit,
    /// and records its version. Stops at the first batch that fails. Rows are
    /// left as they are. Returns the number of migrations applied.
    pub fn run_migrations(&mut self, migrations: Vec<Migration>) -> (r: Result<
        usize,
        MigrationError,
    >)
        ensures
            final(self).data == old(self).data,
            !versions_increasing(migration_views(migrations@)) ==> r == Err::<
                usize,
                MigrationError,
            >(MigrationError::OutOfOrder) && final(self).schema@ == old(self).schema@
                && final(self).watermark == old(self).watermark,
            versions_increasing(migration_views(migrations@)) ==> {
                let o = run_from(old(self).schema@, old(self).watermark, migration_views(migrations@));
                &&& final(self).schema@ == o.schema
                &&& final(self).watermark == o.watermark
                &&& (r is Ok <==> o.result is Ok)
                &&& (r matches Ok(n) ==> o.result == Ok::<nat, MigrationError>(n as nat))
                &&& (r matches Err(e) ==> o.result == Err::<nat, MigrationError>(e))
            },
    {
        if !check_versions_increasing(&migrations) {
            return Err(MigrationError::OutOfOrder);
        }
        let ghost all = migration_views(migrations@);
        let ghost s0 = self.schema@;
        let ghost w0 = self.watermark;
        let mut pending = migrations;
        let mut applied: usize = 0;
        let n = pending.len();
        assert(all.len() == n);
        while pending.len() > 0
            invariant
                run_from(s0, w0, all) == run_from(
                    self.schema@,
                    self.watermark,
                    migration_views(pending@),
                ).plus(applied as nat),
                applied + pending@.len() <= all.len(),
                all.len() <= usize::MAX,
                self.data == old(self).data,
                s0 == old(self).schema@,
                w0 == old(self).watermark,
                versions_increasing(all),
                all == migration_views(migrations@),
            decreases pending.len(),
        {
            let ghost before = pending@;
            let m = pending.remove(0);
            let ghost mv = m@;
            proof {
                assert(migration_views(pending@) =~= migration_views(before).drop_first());
                assert(migration_views(before)[0] == mv);
            }
            if m.version > self.watermark {
                let v = m.version;
                match self.schema.apply_batch(m.statements) {
                    Ok(()) => {
                        self.watermark = v;
                        applied = applied + 1;
                    },
                    Err(e) => {
                        return Err(MigrationError::Failed { version: v, cause: e });
                    },
                }
            }
        }
        Ok(applied)
    }
}

} // verus!
