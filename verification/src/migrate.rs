//! The schema-migration engine.
//!
//! A migration holds one exclusive transaction on the store from open to
//! finish.  Opening a fresh store creates the declared tables and stamps
//! the schema version; each step takes effect only when the live stamped
//! version equals the step's starting version (so a chain written against
//! the newest schema runs transparently against an already-migrated
//! store); a step that takes effect rewrites tables through the query
//! compiler, preserving row identity, then verifies referential integrity
//! and structural equality with the declared schema before stamping the
//! new version.  Any failure rolls the whole transaction back; nothing
//! partial is ever persisted.

use vstd::prelude::*;
use core::marker::PhantomData;
use crate::expr::{Typed, Expr, ConstVal};
use crate::exec::{compile_select, spec_params_view};
use crate::plan::{Db, Rows};
use crate::render::{check_ident, push_i64_dec, push_u64_dec, spec_is_ident};
use crate::schema::{
    create_table_sql, drop_table_sql, rename_table_sql, schema_eq, schema_wf_check, spec_schema_wf,
    spec_table_wf, str_eq, table_wf_check, ColTyp, Column, ColumnV, SchemaDef, TableDef,
    TypBuilder, Unique,
};
use crate::store::{exec_batch, exec_sql, raw_query, SqlVal, SqlValV};
use crate::{Error, HasId, Table};

verus! {

/// A schema declaration: its version tag and its tables.  Implemented by
/// the application's generated schema types.
pub trait Schema: Sized {
    /// The integer version this schema declaration carries.
    fn version() -> i64;

    /// Declare every table of this schema version.
    fn typs(b: &mut TableTypBuilder);
}

/// Collects the declared tables of one schema version.
pub struct TableTypBuilder {
    pub(crate) ast: SchemaDef,
}

impl TableTypBuilder {
    /// The declared tables, for specifications.
    pub closed spec fn spec_schema(self) -> Seq<(Seq<char>, crate::schema::TableV)> {
        self.ast@
    }

    /// An empty schema declaration.
    pub fn new() -> (r: TableTypBuilder)
        ensures
            r.spec_schema().len() == 0,
    {
        TableTypBuilder { ast: SchemaDef { tables: Vec::new() } }
    }

    /// Declare table `T` as part of this schema version.
    pub fn table<T: HasId>(&mut self)
        ensures
            final(self).spec_schema().len() == old(self).spec_schema().len() + 1,
            final(self).spec_schema().take(old(self).spec_schema().len() as int) == old(self).spec_schema(),
    {
        let mut b = TypBuilder::new();
        T::typs(&mut b);
        let name = T::table_name();
        self.ast.tables.push((name, b.finish()));
        proof {
            assert(final(self).spec_schema().take(old(self).spec_schema().len() as int) =~= old(self).spec_schema());
        }
    }

    /// The collected schema declaration.
    pub fn finish(self) -> (r: SchemaDef)
        ensures
            r@ == self.spec_schema(),
    {
        self.ast
    }
}

/// Build and validate the declared schema of `S`.  Rejected when the
/// declaration holds an invalid name — a programmer error surfaced before
/// any statement runs.
pub fn declared_schema<S: Schema>() -> (r: Result<SchemaDef, Error>)
    ensures
        r matches Ok(s) ==> spec_schema_wf(s@),
        r is Err ==> r == Result::<SchemaDef, Error>::Err(Error::UnknownColumn),
{
    let mut b = TableTypBuilder::new();
    S::typs(&mut b);
    let s = b.finish();
    if schema_wf_check(&s) {
        Ok(s)
    } else {
        Err(Error::UnknownColumn)
    }
}

/// Read one integer out of a single-cell result.  Succeeds exactly when
/// the first row's first cell is an integer, and returns that integer.
pub fn parse_i64_cell(rows: &Vec<Vec<SqlVal>>) -> (r: Result<i64, Error>)
    ensures
        r is Ok <==> rows@.len() > 0 && rows@[0]@.len() > 0 && rows@[0]@[0]@ is Int,
        r matches Ok(v) ==> rows@[0]@[0]@ == SqlValV::Int(v as int),
        r is Err ==> r == Result::<i64, Error>::Err(Error::BadRow),
{
    if rows.len() == 0 {
        return Err(Error::BadRow);
    }
    let row = &rows[0];
    if row.len() == 0 {
        return Err(Error::BadRow);
    }
    match &row[0] {
        SqlVal::Int(v) => Ok(*v),
        _ => Err(Error::BadRow),
    }
}

/// The store's stamped schema version.  What the store answers cannot be
/// constrained; a failure is the store's own error or an ill-shaped reply.
pub(crate) fn user_version(conn: &rusqlite::Connection) -> (r: Result<i64, Error>)
    ensures
        r matches Err(e) ==> e matches Error::Sql(_) || e matches Error::BadRow,
{
    let params: Vec<SqlVal> = Vec::new();
    let rows = match raw_query(conn, "PRAGMA user_version", &params) {
        Ok(rows) => rows,
        Err(e) => {
            return Err(Error::Sql(e));
        },
    };
    parse_i64_cell(&rows)
}

/// Stamp the store's schema version.
pub(crate) fn set_user_version(conn: &rusqlite::Connection, v: i64) -> (r: Result<(), Error>)
    ensures
        r matches Err(e) ==> e matches Error::Sql(_),
{
    let mut sql = String::new();
    sql.append("PRAGMA user_version = ");
    push_i64_dec(&mut sql, v);
    match exec_batch(conn, sql.as_str()) {
        Ok(_) => Ok(()),
        Err(e) => Err(Error::Sql(e)),
    }
}

/// The store's internal structure counter, advanced by every DDL change.
/// What the store answers cannot be constrained; a failure is the store's
/// own error or an ill-shaped reply.
pub fn schema_version(conn: &rusqlite::Connection) -> (r: Result<i64, Error>)
    ensures
        r matches Err(e) ==> e matches Error::Sql(_) || e matches Error::BadRow,
{
    let params: Vec<SqlVal> = Vec::new();
    let rows = match raw_query(conn, "PRAGMA schema_version", &params) {
        Ok(rows) => rows,
        Err(e) => {
            return Err(Error::Sql(e));
        },
    };
    parse_i64_cell(&rows)
}

/// The number of referential-integrity violations in the store; zero
/// means clean.
pub(crate) fn fk_violations(conn: &rusqlite::Connection) -> (r: Result<i64, Error>)
    ensures
        r matches Err(e) ==> e matches Error::Sql(_) || e matches Error::BadRow,
{
    let params: Vec<SqlVal> = Vec::new();
    let rows = match raw_query(conn, "SELECT count(*) FROM pragma_foreign_key_check", &params) {
        Ok(rows) => rows,
        Err(e) => {
            return Err(Error::Sql(e));
        },
    };
    parse_i64_cell(&rows)
}

/// Read the names out of single-text-cell rows.  Succeeds exactly when
/// every row is one text cell; the names come back in row order.
pub fn parse_names(rows: &Vec<Vec<SqlVal>>) -> (r: Result<Vec<String>, Error>)
    ensures
        r is Ok <==> (forall|i: int|
            0 <= i < rows@.len() ==> (#[trigger] rows@[i])@.len() == 1 && rows@[i]@[0]@ is Text),
        r matches Ok(ns) ==> ns@.len() == rows@.len() && (forall|i: int|
            0 <= i < rows@.len() ==> (#[trigger] ns@[i])@ == rows@[i]@[0]@->Text_0),
        r is Err ==> r == Result::<Vec<String>, Error>::Err(Error::BadRow),
{
    let mut out: Vec<String> = Vec::new();
    let mut i: usize = 0;
    while i < rows.len()
        invariant
            i <= rows@.len(),
            out@.len() == i,
            forall|j: int|
                0 <= j < i ==> (#[trigger] rows@[j])@.len() == 1 && rows@[j]@[0]@ is Text,
            forall|j: int| 0 <= j < i ==> (#[trigger] out@[j])@ == rows@[j]@[0]@->Text_0,
        decreases rows@.len() - i,
    {
        let row = &rows[i];
        if row.len() != 1 {
            return Err(Error::BadRow);
        }
        match &row[0] {
            SqlVal::Text(s) => out.push(s.clone()),
            _ => {
                return Err(Error::BadRow);
            },
        }
        i = i + 1;
    }
    Ok(out)
}

/// Parse one storage type keyword.
pub fn parse_coltyp(s: &String) -> (r: Result<ColTyp, Error>)
    ensures
        r matches Ok(t) ==> s@ == crate::schema::spec_coltyp_sql(t),
        r is Ok <==> (s@ == "INTEGER"@ || s@ == "TEXT"@ || s@ == "REAL"@),
        r is Err ==> r == Result::<ColTyp, Error>::Err(Error::BadRow),
{
    if str_eq(s.as_str(), "INTEGER") {
        Ok(ColTyp::Int)
    } else if str_eq(s.as_str(), "TEXT") {
        Ok(ColTyp::Text)
    } else if str_eq(s.as_str(), "REAL") {
        Ok(ColTyp::Real)
    } else {
        Err(Error::BadRow)
    }
}

/// The view of a result set: every cell as a plain spec value.
pub open spec fn spec_rows_view(rs: Seq<Vec<SqlVal>>) -> Seq<Seq<SqlValV>> {
    rs.map_values(|r: Vec<SqlVal>| r@.map_values(|v: SqlVal| v@))
}

/// Parse one structure row (name, type, not-null flag, primary-key rank):
/// `None` when the row is ill-shaped, `Some(None)` for the implicit
/// primary key, `Some(Some(c))` for a declared column.
pub open spec fn spec_col_row(r: Seq<SqlValV>) -> Option<Option<ColumnV>> {
    if r.len() != 4 {
        Option::None
    } else {
        match (r[0], r[1], r[2], r[3]) {
            (SqlValV::Text(n), SqlValV::Text(t), SqlValV::Int(nn), SqlValV::Int(pk)) => {
                if t == "INTEGER"@ || t == "TEXT"@ || t == "REAL"@ {
                    let typ = if t == "INTEGER"@ {
                        ColTyp::Int
                    } else if t == "TEXT"@ {
                        ColTyp::Text
                    } else {
                        ColTyp::Real
                    };
                    if pk != 0 {
                        Option::Some(Option::None)
                    } else {
                        Option::Some(
                            Option::Some(
                                ColumnV { name: n, typ, nullable: nn == 0, fk: Option::None },
                            ),
                        )
                    }
                } else {
                    Option::None
                }
            },
            _ => Option::None,
        }
    }
}

/// Parse every structure row, skipping the implicit primary key.
pub open spec fn spec_cols_of(rows: Seq<Seq<SqlValV>>) -> Option<Seq<ColumnV>>
    decreases rows.len(),
{
    if rows.len() == 0 {
        Option::Some(Seq::empty())
    } else {
        match (spec_cols_of(rows.drop_last()), spec_col_row(rows.last())) {
            (Option::Some(pre), Option::Some(c)) => Option::Some(
                match c {
                    Option::Some(c) => pre.push(c),
                    Option::None => pre,
                },
            ),
            _ => Option::None,
        }
    }
}

/// Parse one foreign-key row: (target table, source column, target
/// column), or `None` when ill-shaped.
pub open spec fn spec_fk_row(r: Seq<SqlValV>) -> Option<(Seq<char>, Seq<char>, Seq<char>)> {
    if r.len() != 3 {
        Option::None
    } else {
        match (r[0], r[1], r[2]) {
            (SqlValV::Text(target), SqlValV::Text(from), SqlValV::Text(to)) => Option::Some(
                (target, from, to),
            ),
            _ => Option::None,
        }
    }
}

/// Attach one foreign key to every column it names.
pub open spec fn spec_apply_fk(
    cols: Seq<ColumnV>,
    target: Seq<char>,
    from: Seq<char>,
    to: Seq<char>,
) -> Seq<ColumnV> {
    cols.map_values(
        |c: ColumnV| if c.name == from {
            ColumnV { name: c.name, typ: c.typ, nullable: c.nullable, fk: Option::Some((target, to)) }
        } else {
            c
        },
    )
}

/// Attach every foreign-key row, in row order.
pub open spec fn spec_apply_fks(cols: Seq<ColumnV>, rows: Seq<Seq<SqlValV>>) -> Option<
    Seq<ColumnV>,
>
    decreases rows.len(),
{
    if rows.len() == 0 {
        Option::Some(cols)
    } else {
        match (spec_apply_fks(cols, rows.drop_last()), spec_fk_row(rows.last())) {
            (Option::Some(pre), Option::Some(f)) => Option::Some(spec_apply_fk(pre, f.0, f.1, f.2)),
            _ => Option::None,
        }
    }
}

/// A fold over structure rows fails when any row is ill-shaped.
proof fn lemma_cols_of_bad(rows: Seq<Seq<SqlValV>>, k: int)
    requires
        0 <= k < rows.len(),
        spec_col_row(rows[k]) is None,
    ensures
        spec_cols_of(rows) is None,
    decreases rows.len(),
{
    if k < rows.len() - 1 {
        lemma_cols_of_bad(rows.drop_last(), k);
        assert(rows.drop_last()[k] == rows[k]);
    }
}

/// A fold over foreign-key rows fails when any row is ill-shaped.
proof fn lemma_apply_fks_bad(cols: Seq<ColumnV>, rows: Seq<Seq<SqlValV>>, k: int)
    requires
        0 <= k < rows.len(),
        spec_fk_row(rows[k]) is None,
    ensures
        spec_apply_fks(cols, rows) is None,
    decreases rows.len(),
{
    if k < rows.len() - 1 {
        lemma_apply_fks_bad(cols, rows.drop_last(), k);
        assert(rows.drop_last()[k] == rows[k]);
    }
}

/// Assemble the columns of one live table: parse the structure rows
/// (name, type, not-null flag, primary-key rank), skipping the implicit
/// primary key, then attach the foreign keys read from (target table,
/// source column, target column) rows.  Succeeds exactly when every row
/// is well shaped, and returns exactly the parsed columns.
#[verifier::loop_isolation(false)]
pub fn assemble_columns(info: &Vec<Vec<SqlVal>>, fks: &Vec<Vec<SqlVal>>) -> (r: Result<
    Vec<Column>,
    Error,
>)
    ensures
        r is Ok <==> spec_cols_of(spec_rows_view(info@)) is Some && spec_apply_fks(
            spec_cols_of(spec_rows_view(info@))->Some_0,
            spec_rows_view(fks@),
        ) is Some,
        r matches Ok(cs) ==> cs@.map_values(|c: Column| c@) == spec_apply_fks(
            spec_cols_of(spec_rows_view(info@))->Some_0,
            spec_rows_view(fks@),
        )->Some_0,
        r is Err ==> r == Result::<Vec<Column>, Error>::Err(Error::BadRow),
{
    let ghost iv = spec_rows_view(info@);
    let ghost fv = spec_rows_view(fks@);
    let mut cols: Vec<Column> = Vec::new();
    let mut i: usize = 0;
    while i < info.len()
        invariant
            i <= info@.len(),
            spec_cols_of(iv.take(i as int)) == Option::Some(cols@.map_values(|c: Column| c@)),
        decreases info@.len() - i,
    {
        let row = &info[i];
        proof {
            assert(iv[i as int] =~= row@.map_values(|v: SqlVal| v@));
            assert(iv.take(i + 1).drop_last() =~= iv.take(i as int));
            assert(iv.take(i + 1).last() == iv[i as int]);
        }
        let parsed = if row.len() != 4 {
            None
        } else {
            match (&row[0], &row[1], &row[2], &row[3]) {
                (SqlVal::Text(n), SqlVal::Text(t), SqlVal::Int(nn), SqlVal::Int(pk)) => {
                    match parse_coltyp(t) {
                        Ok(typ) => Some((n.clone(), typ, *nn, *pk)),
                        Err(_) => None,
                    }
                },
                _ => None,
            }
        };
        let (name, typ, notnull, pk) = match parsed {
            Some(p) => p,
            None => {
                proof {
                    reveal_strlit("INTEGER");
                    reveal_strlit("TEXT");
                    reveal_strlit("REAL");
                    assert(spec_col_row(iv[i as int]) is None);
                    lemma_cols_of_bad(iv, i as int);
                }
                return Err(Error::BadRow);
            },
        };
        if pk == 0 {
            let c = Column { name, typ, nullable: notnull == 0, fk: None };
            proof {
                reveal_strlit("INTEGER");
                reveal_strlit("TEXT");
                reveal_strlit("REAL");
                assert(iv[i as int].len() == 4);
                assert(iv[i as int][0] == SqlValV::Text(name@));
                assert(iv[i as int][1] matches SqlValV::Text(t) && t == crate::schema::spec_coltyp_sql(typ));
                assert(iv[i as int][2] == SqlValV::Int(notnull as int));
                assert(iv[i as int][3] == SqlValV::Int(pk as int));
                match typ {
                    ColTyp::Int => {
                        assert(spec_col_row(iv[i as int]) == Option::Some(Option::Some(c@)));
                    },
                    ColTyp::Text => {
                        assert("TEXT"@.len() == 4 && "INTEGER"@.len() == 7);
                        assert(spec_col_row(iv[i as int]) == Option::Some(Option::Some(c@)));
                    },
                    ColTyp::Real => {
                        assert("REAL"@.len() == 4 && "INTEGER"@.len() == 7);
                        assert("REAL"@[0] == 'R' && "TEXT"@[0] == 'T');
                        assert(spec_col_row(iv[i as int]) == Option::Some(Option::Some(c@)));
                    },
                }
                assert(spec_col_row(iv[i as int]) == Option::Some(Option::Some(c@)));
                assert(cols@.push(c).map_values(|x: Column| x@) =~= cols@.map_values(
                    |x: Column| x@,
                ).push(c@));
            }
            cols.push(c);
        } else {
            proof {
                reveal_strlit("INTEGER");
                reveal_strlit("TEXT");
                reveal_strlit("REAL");
                assert(spec_col_row(iv[i as int]) matches Option::Some(o) && o is None);
            }
        }
        i = i + 1;
    }
    proof {
        assert(iv.take(iv.len() as int) =~= iv);
    }
    // attach foreign keys
    let mut f: usize = 0;
    while f < fks.len()
        invariant
            f <= fks@.len(),
            spec_apply_fks(spec_cols_of(iv)->Some_0, fv.take(f as int)) == Option::Some(
                cols@.map_values(|c: Column| c@),
            ),
        decreases fks@.len() - f,
    {
        let row = &fks[f];
        proof {
            assert(fv[f as int] =~= row@.map_values(|v: SqlVal| v@));
            assert(fv.take(f + 1).drop_last() =~= fv.take(f as int));
            assert(fv.take(f + 1).last() == fv[f as int]);
        }
        let parsed = if row.len() != 3 {
            None
        } else {
            match (&row[0], &row[1], &row[2]) {
                (SqlVal::Text(target), SqlVal::Text(from), SqlVal::Text(to)) => Some(
                    (target.clone(), from.clone(), to.clone()),
                ),
                _ => None,
            }
        };
        let (target, from, to) = match parsed {
            Some(p) => p,
            None => {
                proof {
                    assert(spec_fk_row(fv[f as int]) is None);
                    lemma_apply_fks_bad(spec_cols_of(iv)->Some_0, fv, f as int);
                }
                return Err(Error::BadRow);
            },
        };
        let ghost pre = cols@.map_values(|c: Column| c@);
        let mut c: usize = 0;
        while c < cols.len()
            invariant
                c <= cols@.len(),
                cols@.len() == pre.len(),
                forall|k: int|
                    0 <= k < c ==> (#[trigger] cols@[k])@ == spec_apply_fk(
                        pre,
                        target@,
                        from@,
                        to@,
                    )[k],
                forall|k: int| c <= k < cols@.len() ==> (#[trigger] cols@[k])@ == pre[k],
            decreases cols@.len() - c,
        {
            proof {
                assert(spec_apply_fk(pre, target@, from@, to@)[c as int] == (if pre[c as int].name
                    == from@ {
                    ColumnV {
                        name: pre[c as int].name,
                        typ: pre[c as int].typ,
                        nullable: pre[c as int].nullable,
                        fk: Option::Some((target@, to@)),
                    }
                } else {
                    pre[c as int]
                }));
            }
            if str_eq(cols[c].name.as_str(), from.as_str()) {
                cols[c].fk = Some((target.clone(), to.clone()));
            }
            c = c + 1;
        }
        proof {
            assert(spec_fk_row(fv[f as int]) == Option::Some((target@, from@, to@)));
            assert(cols@.map_values(|x: Column| x@) =~= spec_apply_fk(pre, target@, from@, to@));
        }
        f = f + 1;
    }
    proof {
        assert(fv.take(fv.len() as int) =~= fv);
    }
    Ok(cols)
}

/// Read the live structure of the store back as a schema model: every
/// user table with its columns, nullability, foreign keys and unique
/// constraints.
pub fn read_schema(conn: &rusqlite::Connection) -> (r: Result<SchemaDef, Error>)
    ensures
        r matches Err(e) ==> e matches Error::Sql(_) || e matches Error::BadRow,
{
    let no_params: Vec<SqlVal> = Vec::new();
    let trows = match raw_query(
        conn,
        "SELECT name FROM sqlite_schema WHERE type = 'table' AND name NOT LIKE 'sqlite_%' ORDER BY name",
        &no_params,
    ) {
        Ok(rows) => rows,
        Err(e) => {
            return Err(Error::Sql(e));
        },
    };
    let names = parse_names(&trows)?;
    let mut tables: Vec<(String, TableDef)> = Vec::new();
    let mut t: usize = 0;
    while t < names.len()
        decreases names@.len() - t,
    {
        let name = &names[t];
        let mut params: Vec<SqlVal> = Vec::new();
        params.push(SqlVal::Text(name.clone()));
        let info = match raw_query(
            conn,
            "SELECT name, type, \"notnull\", pk FROM pragma_table_info(?1)",
            &params,
        ) {
            Ok(rows) => rows,
            Err(e) => {
                return Err(Error::Sql(e));
            },
        };
        let fks = match raw_query(
            conn,
            "SELECT \"table\", \"from\", \"to\" FROM pragma_foreign_key_list(?1)",
            &params,
        ) {
            Ok(rows) => rows,
            Err(e) => {
                return Err(Error::Sql(e));
            },
        };
        let cols = assemble_columns(&info, &fks)?;
        // unique constraints: the automatic indexes the store keeps for them
        let idx_rows = match raw_query(
            conn,
            "SELECT name FROM pragma_index_list(?1) WHERE origin = 'u' AND \"unique\" = 1",
            &params,
        ) {
            Ok(rows) => rows,
            Err(e) => {
                return Err(Error::Sql(e));
            },
        };
        let idx_names = parse_names(&idx_rows)?;
        let mut uniques: Vec<Unique> = Vec::new();
        let mut u: usize = 0;
        while u < idx_names.len()
            decreases idx_names@.len() - u,
        {
            let mut iparams: Vec<SqlVal> = Vec::new();
            iparams.push(SqlVal::Text(idx_names[u].clone()));
            let col_rows = match raw_query(
                conn,
                "SELECT name FROM pragma_index_info(?1) ORDER BY seqno",
                &iparams,
            ) {
                Ok(rows) => rows,
                Err(e) => {
                    return Err(Error::Sql(e));
                },
            };
            let ucols = parse_names(&col_rows)?;
            uniques.push(Unique { columns: ucols });
            u = u + 1;
        }
        tables.push((name.clone(), TableDef { columns: cols, uniques }));
        t = t + 1;
    }
    Ok(SchemaDef { tables })
}

/// Verify the store: zero referential-integrity violations, and a live
/// structure equal to the declared schema.  Returns which of the two
/// checks failed, if any; every other failure is the store's own error or
/// an ill-shaped reply.
pub(crate) fn verify_store(conn: &rusqlite::Connection, declared: &SchemaDef) -> (r: Result<
    (),
    Error,
>)
    ensures
        r matches Err(e) ==> e matches Error::Sql(_) || e matches Error::BadRow
            || e matches Error::IntegrityViolation || e matches Error::SchemaMismatch,
{
    let violations = fk_violations(conn)?;
    if violations != 0 {
        return Err(Error::IntegrityViolation);
    }
    let live = read_schema(conn)?;
    if !schema_eq(declared, &live) {
        return Err(Error::SchemaMismatch);
    }
    Ok(())
}

/// The quoted insert-column list: the identity column first, then each
/// declared target column.
pub open spec fn spec_insert_cols(names: Seq<Seq<char>>) -> Seq<char>
    decreases names,
{
    if names.len() == 0 {
        Seq::empty()
    } else {
        spec_insert_cols(names.drop_last()) + ", "@ + crate::render::spec_quoted(names.last())
    }
}

/// The full projection-write statement: insert the transformed rows of
/// the source select into the target table.
pub open spec fn spec_insert_sql(table: Seq<char>, names: Seq<Seq<char>>, select: Seq<char>) -> Seq<
    char,
> {
    "INSERT INTO "@ + crate::render::spec_quoted(table) + " (\"id\""@ + spec_insert_cols(names)
        + ") "@ + select
}

/// Emit the projection-write statement.
#[verifier::loop_isolation(false)]
fn insert_sql(table: &str, names: &Vec<String>, select: &str) -> (r: String)
    requires
        spec_is_ident(table@),
        forall|i: int| 0 <= i < names@.len() ==> spec_is_ident((#[trigger] names@[i])@),
    ensures
        r@ == spec_insert_sql(table@, names@.map_values(|s: String| s@), select@),
{
    let ghost nv = names@.map_values(|s: String| s@);
    let mut out = String::new();
    out.append("INSERT INTO ");
    crate::render::push_quoted(&mut out, table);
    out.append(" (\"id\"");
    let ghost base = out@;
    let mut i: usize = 0;
    while i < names.len()
        invariant
            i <= names@.len(),
            out@ == base + spec_insert_cols(nv.take(i as int)),
        decreases names@.len() - i,
    {
        proof {
            assert(nv[i as int] == names@[i as int]@);
        }
        out.append(", ");
        crate::render::push_quoted(&mut out, names[i].as_str());
        proof {
            assert(nv.take(i + 1).drop_last() =~= nv.take(i as int));
            assert(nv.take(i + 1).last() == nv[i as int]);
            assert(out@ =~= base + spec_insert_cols(nv.take(i + 1)));
        }
        i = i + 1;
    }
    proof {
        assert(nv.take(nv.len() as int) =~= nv);
    }
    out.append(") ");
    out.append(select);
    proof {
        assert(out@ =~= spec_insert_sql(table@, nv, select@));
    }
    out
}

/// A table alteration: for each target column, a typed expression over
/// the old table's row, plus filters that drop old rows entirely when the
/// transform declines to emit them.  Row identity is preserved by the
/// engine, never chosen here.
pub struct Alter {
    pub cols: Vec<(String, Typed)>,
    pub filters: Vec<Typed>,
}

impl Alter {
    /// An alteration projecting the given columns and keeping every row.
    pub fn new(cols: Vec<(String, Typed)>) -> (r: Alter)
        ensures
            r.cols == cols,
            r.filters@.len() == 0,
    {
        Alter { cols, filters: Vec::new() }
    }
}

/// A table creation: for each target column, a typed expression, plus
/// filters over the source plan; with no sources and an always-false
/// filter the new table starts empty.
pub struct Create {
    pub cols: Vec<(String, Typed)>,
    pub filters: Vec<Typed>,
}

impl Create {
    /// A creation projecting the given columns for every selected row.
    pub fn new(cols: Vec<(String, Typed)>) -> (r: Create)
        ensures
            r.cols == cols,
            r.filters@.len() == 0,
    {
        Create { cols, filters: Vec::new() }
    }

    /// A creation that leaves the new table empty: it selects no rows.
    pub fn empty() -> (r: Create)
        ensures
            r.cols@.len() == 0,
            r.filters@.len() == 1,
            r.filters@[0].spec_typ()@ == crate::expr::spec_bool_typ(),
            r.filters@[0].spec_expr() == Expr::Lit(ConstVal::Bool(false)),
            r.filters@[0].spec_stmt() is None,
    {
        let f = crate::expr::Const::new(ConstVal::Bool(false)).build_expr();
        let mut filters: Vec<Typed> = Vec::new();
        filters.push(f);
        Create { cols: Vec::new(), filters }
    }
}

/// One table alteration of a migration step: given the old table's row
/// accessor, produce the projections and filters of the rewrite.
pub trait TableMigration {
    /// The table being altered.
    type From: HasId;

    /// The table as declared in the target schema.
    type To: HasId;

    /// The rewrite: how each target column is computed from the old row.
    fn prepare(self, old_row: &Db) -> Result<Alter, Error>;
}

/// One table creation of a migration step: produce the projections and
/// filters that fill the fresh table.
pub trait TableCreation {
    /// The schema the creation may read from.
    type FromSchema;

    /// The table being created.
    type To: HasId;

    /// The fill: how each column of the new table is computed.
    fn prepare(self) -> Result<Create, Error>;
}

/// A whole migration step from one schema version to the next: declares
/// which tables are altered, created and dropped.
pub trait Migration {
    /// The starting schema version.
    type From: Schema;

    /// The target schema version.
    type To: Schema;

    /// Register every table change of this step.
    fn tables(self, b: &mut SchemaBuilder) -> Result<(), Error>;
}

/// Collects and executes the table rewrites of one migration step inside
/// the open exclusive transaction: new tables are created under temporary
/// names and filled through the query compiler; drops and renames are
/// deferred until every rewrite ran.
pub struct SchemaBuilder<'a> {
    pub(crate) conn: &'a rusqlite::Connection,
    pub(crate) next_tmp: u64,
    pub(crate) next_stmt: u64,
    pub(crate) drops: Vec<String>,
    pub(crate) renames: Vec<String>,
}

impl<'a> SchemaBuilder<'a> {
    /// The deferred drop statements, for specifications.
    pub closed spec fn spec_drops(self) -> Seq<String> {
        self.drops@
    }

    /// The deferred rename statements, for specifications.
    pub closed spec fn spec_renames(self) -> Seq<String> {
        self.renames@
    }

    /// A fresh temporary table name, unique within this step.
    fn tmp_table(&mut self) -> (r: Result<String, Error>)
        ensures
            r matches Ok(n) ==> spec_is_ident(n@),
            final(self).spec_drops() == old(self).spec_drops(),
            final(self).spec_renames() == old(self).spec_renames(),
    {
        let mut name = String::new();
        name.append("tmp_");
        if self.next_tmp >= 0xffff_ffff {
            return Err(Error::ScopeExhausted);
        }
        push_u64_dec(&mut name, self.next_tmp);
        self.next_tmp = self.next_tmp + 1;
        if !check_ident(name.as_str()) {
            return Err(Error::UnknownColumn);
        }
        Ok(name)
    }

    /// A fresh statement token for one rewrite select.
    fn fresh_stmt(&mut self) -> (r: u64)
        ensures
            final(self).spec_drops() == old(self).spec_drops(),
            final(self).spec_renames() == old(self).spec_renames(),
    {
        let s = self.next_stmt;
        if self.next_stmt < 0xffff_ffff_ffff_ffff {
            self.next_stmt = self.next_stmt + 1;
        }
        s
    }

    /// Validate a declared table of the target schema.
    fn checked_def<T: HasId>() -> (r: Result<(String, TableDef), Error>)
        ensures
            r matches Ok(p) ==> spec_is_ident(p.0@) && spec_table_wf(p.1@) && p.0@
                == T::spec_name(),
            r is Err ==> r == Result::<(String, TableDef), Error>::Err(Error::UnknownColumn),
    {
        let mut b = TypBuilder::new();
        T::typs(&mut b);
        let def = b.finish();
        let name = T::table_name();
        if !check_ident(name.as_str()) || !table_wf_check(&def) {
            return Err(Error::UnknownColumn);
        }
        Ok((name, def))
    }

    /// Run one rewrite: create the target table under a temporary name,
    /// fill it from the compiled source select with the given identity
    /// lead and projections, and defer the rename.
    fn run_rewrite(
        &mut self,
        to_name: &str,
        to_def: &TableDef,
        rows: &Rows,
        lead: &Expr,
        cols: Vec<(String, Typed)>,
    ) -> (r: Result<(), Error>)
        requires
            rows.inv(),
            spec_is_ident(to_name@),
            spec_table_wf(to_def@),
            crate::expr::spec_expr_names_wf(*lead),
        ensures
            final(self).spec_drops() == old(self).spec_drops(),
            r is Err ==> final(self).spec_renames() == old(self).spec_renames(),
            r is Ok ==> final(self).spec_renames().len() == old(self).spec_renames().len() + 1
                && final(self).spec_renames().take(old(self).spec_renames().len() as int) == old(self).spec_renames() && (exists|t: Seq<char>|
                spec_is_ident(t) && #[trigger] crate::schema::spec_rename_table_sql(t, to_name@)
                    == final(self).spec_renames().last()@),
    {
        let tmp = self.tmp_table()?;
        let ddl = create_table_sql(tmp.as_str(), to_def);
        let no_params: Vec<SqlVal> = Vec::new();
        if let Err(e) = exec_sql(self.conn, ddl.as_str(), &no_params) {
            return Err(Error::Sql(e));
        }
        // split the projections into names and expressions, validating both
        let mut names: Vec<String> = Vec::new();
        let mut exprs: Vec<Expr> = Vec::new();
        let mut rest = cols;
        while rest.len() > 0
            invariant
                rows.inv(),
                self.spec_drops() == old(self).spec_drops(),
                self.spec_renames() == old(self).spec_renames(),
                forall|i: int| 0 <= i < names@.len() ==> spec_is_ident((#[trigger] names@[i])@),
                forall|i: int|
                    0 <= i < exprs@.len() ==> crate::expr::spec_expr_names_wf(
                        #[trigger] exprs@[i],
                    ),
            decreases rest@.len(),
        {
            let (name, t) = rest.remove(0);
            if !check_ident(name.as_str()) {
                return Err(Error::UnknownColumn);
            }
            rows.check_expr(&t, true)?;
            names.push(name);
            exprs.push(t.expr);
        }
        proof {
            crate::plan::lemma_rows_names_wf(*rows);
        }
        let (sel_sql, params) = compile_select(rows.plan_ref(), lead, &exprs);
        let ins = insert_sql(tmp.as_str(), &names, sel_sql.as_str());
        if let Err(e) = exec_sql(self.conn, ins.as_str(), &params) {
            return Err(Error::Sql(e));
        }
        let ren = rename_table_sql(tmp.as_str(), to_name);
        self.renames.push(ren);
        proof {
            assert(final(self).spec_renames().take(old(self).spec_renames().len() as int) =~= old(self).spec_renames());
            assert(spec_is_ident(tmp@) && crate::schema::spec_rename_table_sql(tmp@, to_name@)
                == final(self).spec_renames().last()@);
        }
        Ok(())
    }

    /// Alter table `From` into table `To`: read every old row through a
    /// select plan, run the transform, and write the projected rows into
    /// the new table, preserving each row's identity; rows the transform
    /// filters out are dropped.  The old table is dropped at the end of
    /// the step.
    pub fn migrate_table<M: TableMigration>(&mut self, m: M) -> (r: Result<(), Error>)
        ensures
            r is Err ==> final(self).spec_drops() == old(self).spec_drops() && final(self).spec_renames() == old(self).spec_renames(),
            r is Ok ==> final(self).spec_drops().len() == old(self).spec_drops().len() + 1
                && final(self).spec_drops().take(old(self).spec_drops().len() as int) == old(self).spec_drops() && final(self).spec_drops().last()@
                == crate::schema::spec_drop_table_sql(M::From::spec_name()) && final(self).spec_renames().len() == old(self).spec_renames().len() + 1 && final(self).spec_renames().take(old(self).spec_renames().len() as int) == old(self).spec_renames() && (exists|t: Seq<char>|
                spec_is_ident(t) && #[trigger] crate::schema::spec_rename_table_sql(
                    t,
                    M::To::spec_name(),
                ) == final(self).spec_renames().last()@),
    {
        let (from_name, from_def) = Self::checked_def::<M::From>()?;
        let (to_name, to_def) = Self::checked_def::<M::To>()?;
        let stmt = self.fresh_stmt();
        let mut rows = Rows::new(stmt);
        let db = rows.join_table(from_name.as_str(), &from_def)?;
        let lead_t = db.id();
        let alter = m.prepare(&db)?;
        let mut fs = alter.filters;
        while fs.len() > 0
            invariant
                rows.inv(),
                self.spec_drops() == old(self).spec_drops(),
                self.spec_renames() == old(self).spec_renames(),
            decreases fs@.len(),
        {
            let f = fs.remove(0);
            rows.filter(f)?;
        }
        rows.check_expr(&lead_t, true)?;
        self.run_rewrite(to_name.as_str(), &to_def, &rows, &lead_t.expr, alter.cols)?;
        let drop = drop_table_sql(from_name.as_str());
        self.drops.push(drop);
        proof {
            assert(final(self).spec_drops().take(old(self).spec_drops().len() as int) =~= old(self).spec_drops());
        }
        Ok(())
    }

    /// Create table `To` fresh and fill it with the creation's projected
    /// rows; row identities are assigned by the store.
    pub fn create_from<C: TableCreation>(&mut self, c: C) -> (r: Result<(), Error>)
        ensures
            final(self).spec_drops() == old(self).spec_drops(),
            r is Err ==> final(self).spec_renames() == old(self).spec_renames(),
            r is Ok ==> final(self).spec_renames().len() == old(self).spec_renames().len() + 1
                && final(self).spec_renames().take(old(self).spec_renames().len() as int) == old(self).spec_renames() && (exists|t: Seq<char>|
                spec_is_ident(t) && #[trigger] crate::schema::spec_rename_table_sql(
                    t,
                    C::To::spec_name(),
                ) == final(self).spec_renames().last()@),
    {
        let (to_name, to_def) = Self::checked_def::<C::To>()?;
        let stmt = self.fresh_stmt();
        let mut rows = Rows::new(stmt);
        let create = c.prepare()?;
        let mut fs = create.filters;
        while fs.len() > 0
            invariant
                rows.inv(),
                self.spec_drops() == old(self).spec_drops(),
                self.spec_renames() == old(self).spec_renames(),
            decreases fs@.len(),
        {
            let f = fs.remove(0);
            rows.filter(f)?;
        }
        // fresh rows get their identity from the store
        let lead = Expr::Lit(ConstVal::OptInt(None));
        self.run_rewrite(to_name.as_str(), &to_def, &rows, &lead, create.cols)?;
        Ok(())
    }

    /// Drop table `T` at the end of this step.  Rejected exactly when the
    /// declared table name is not a valid identifier.
    pub fn drop_table<T: HasId>(&mut self) -> (r: Result<(), Error>)
        ensures
            final(self).spec_renames() == old(self).spec_renames(),
            r is Ok <==> spec_is_ident(T::spec_name()),
            r is Ok ==> final(self).spec_drops().len() == old(self).spec_drops().len() + 1
                && final(self).spec_drops().take(old(self).spec_drops().len() as int) == old(self).spec_drops() && final(self).spec_drops().last()@
                == crate::schema::spec_drop_table_sql(T::spec_name()),
            r is Err ==> final(self).spec_drops() == old(self).spec_drops() && r == Result::<
                (),
                Error,
            >::Err(Error::UnknownColumn),
    {
        let name = T::table_name();
        if !check_ident(name.as_str()) {
            return Err(Error::UnknownColumn);
        }
        let drop = drop_table_sql(name.as_str());
        self.drops.push(drop);
        proof {
            assert(final(self).spec_drops().take(old(self).spec_drops().len() as int) =~= old(self).spec_drops());
        }
        Ok(())
    }
}

/// Marker for creations that read from no existing table.
pub struct NoTable {
    _p: (),
}

/// Opens a store and drives it to the first declared schema version: the
/// first step of the prepare, migrate, finish chain.
pub struct Prepare {
    pub(crate) conn: rusqlite::Connection,
}

/// Roll the open transaction back, preserving the reported error.
fn rollback(conn: &rusqlite::Connection, e: Error) -> (r: Error)
    ensures
        r == e,
{
    let _ = exec_batch(conn, "ROLLBACK");
    e
}

impl Prepare {
    /// Open a store kept in a file (or any store the engine's URI names
    /// reach).  Creates it if it does not exist.  A failure is the
    /// store's own error.
    pub fn open(path: &str) -> (r: Result<Prepare, Error>)
        ensures
            r matches Err(e) ==> e matches Error::Sql(_),
    {
        match crate::store::open_path(path) {
            Ok(conn) => Self::open_internal(conn),
            Err(e) => Err(Error::Sql(e)),
        }
    }

    /// Open a fresh private in-memory store.  A failure is the store's
    /// own error.
    pub fn open_in_memory() -> (r: Result<Prepare, Error>)
        ensures
            r matches Err(e) ==> e matches Error::Sql(_),
    {
        match crate::store::open_in_memory() {
            Ok(conn) => Self::open_internal(conn),
            Err(e) => Err(Error::Sql(e)),
        }
    }

    fn open_internal(conn: rusqlite::Connection) -> (r: Result<Prepare, Error>)
        ensures
            r matches Err(e) ==> e matches Error::Sql(_),
    {
        if let Err(e) = exec_batch(
            &conn,
            "PRAGMA journal_mode = WAL; PRAGMA synchronous = NORMAL; PRAGMA foreign_keys = ON",
        ) {
            return Err(Error::Sql(e));
        }
        Ok(Prepare { conn })
    }

    /// Create the declared tables of `S` if the store is fresh, running
    /// the given raw statements afterwards to seed it, and verify the
    /// structure when the stamped version matches.  Returns nothing when
    /// the store is stamped older than `S` — such a store cannot be
    /// reached from this starting point.  A failure is an invalid
    /// declaration, the store's own error, an ill-shaped reply, or one of
    /// the two verification outcomes.
    pub fn create_db_sql<S: Schema>(self, sql: &[&str]) -> (r: Result<Option<Migrator<S>>, Error>)
        ensures
            r matches Err(e) ==> e matches Error::Sql(_) || e matches Error::BadRow
                || e matches Error::UnknownColumn || e matches Error::IntegrityViolation
                || e matches Error::SchemaMismatch,
    {
        self.migrator_internal::<S>(Some(sql))
    }

    /// Create the declared tables of `S` if the store is fresh, and
    /// verify the structure when the stamped version matches.  Returns
    /// nothing when the store is stamped older than `S`.  A failure is an
    /// invalid declaration, the store's own error, an ill-shaped reply,
    /// or one of the two verification outcomes.
    pub fn create_db_empty<S: Schema>(self) -> (r: Result<Option<Migrator<S>>, Error>)
        ensures
            r matches Err(e) ==> e matches Error::Sql(_) || e matches Error::BadRow
                || e matches Error::UnknownColumn || e matches Error::IntegrityViolation
                || e matches Error::SchemaMismatch,
    {
        self.migrator_internal::<S>(None)
    }

    fn migrator_internal<S: Schema>(self, init_sql: Option<&[&str]>) -> (r: Result<
        Option<Migrator<S>>,
        Error,
    >)
        ensures
            r matches Err(e) ==> e matches Error::Sql(_) || e matches Error::BadRow
                || e matches Error::UnknownColumn || e matches Error::IntegrityViolation
                || e matches Error::SchemaMismatch,
    {
        let declared = declared_schema::<S>()?;
        let conn = self.conn;
        // referential integrity is verified explicitly at the end of each
        // step, so the rewrites themselves run unconstrained
        if let Err(e) = exec_batch(&conn, "PRAGMA foreign_keys = OFF") {
            return Err(Error::Sql(e));
        }
        if let Err(e) = exec_batch(&conn, "BEGIN EXCLUSIVE") {
            return Err(Error::Sql(e));
        }
        let sv = match schema_version(&conn) {
            Ok(v) => v,
            Err(e) => {
                return Err(rollback(&conn, e));
            },
        };
        if sv == 0 {
            // fresh store: create the declared tables and stamp the version
            let mut t: usize = 0;
            while t < declared.tables.len()
                invariant
                    spec_schema_wf(declared@),
                decreases declared.tables@.len() - t,
            {
                proof {
                    assert(declared@[t as int] == (
                        declared.tables@[t as int].0@,
                        declared.tables@[t as int].1@,
                    ));
                }
                let ddl = create_table_sql(
                    declared.tables[t].0.as_str(),
                    &declared.tables[t].1,
                );
                let no_params: Vec<SqlVal> = Vec::new();
                if let Err(e) = exec_sql(&conn, ddl.as_str(), &no_params) {
                    return Err(rollback(&conn, Error::Sql(e)));
                }
                t = t + 1;
            }
            if let Some(stmts) = init_sql {
                let mut s: usize = 0;
                while s < stmts.len()
                    decreases stmts@.len() - s,
                {
                    if let Err(e) = exec_batch(&conn, stmts[s]) {
                        return Err(rollback(&conn, Error::Sql(e)));
                    }
                    s = s + 1;
                }
            }
            if let Err(e) = set_user_version(&conn, S::version()) {
                return Err(rollback(&conn, e));
            }
        }
        let uv = match user_version(&conn) {
            Ok(v) => v,
            Err(e) => {
                return Err(rollback(&conn, e));
            },
        };
        if uv < S::version() {
            // too old to reach this starting point by this code path
            let _ = exec_batch(&conn, "ROLLBACK");
            return Ok(None);
        }
        if uv == S::version() {
            if let Err(e) = verify_store(&conn, &declared) {
                return Err(rollback(&conn, e));
            }
        }
        Ok(Some(Migrator { conn, next_stmt: 0, _p: PhantomData }))
    }
}

/// Applies migration steps inside the open exclusive transaction; when
/// every step is done it commits and hands out the database handle.
pub struct Migrator<S> {
    pub(crate) conn: rusqlite::Connection,
    pub(crate) next_stmt: u64,
    pub(crate) _p: PhantomData<S>,
}

impl<S> Migrator<S> {
    /// The next statement token this chain will issue, for
    /// specifications.
    pub closed spec fn spec_next_stmt(self) -> u64 {
        self.next_stmt
    }
}

impl<S: Schema> Migrator<S> {
    /// Apply one migration step if the live stamped version equals `S`'s;
    /// otherwise the step is a no-op that still yields the capability for
    /// the next version, so a chain written against the newest schema
    /// runs against an already-migrated store.  When the step runs, its
    /// rewrites execute, removed tables are dropped, temporary tables are
    /// renamed into place, referential integrity is checked, the live
    /// structure is verified against the declared target schema, and the
    /// new version is stamped.  Any failure rolls the transaction back;
    /// the error set is open because the step's own `tables` registration
    /// may report any error of its choosing, which is passed through.
    pub fn migrate<N: Schema, M: Migration<From = S, To = N>>(self, m: M) -> (r: Result<
        Migrator<N>,
        Error,
    >)
        ensures
            r matches Ok(next) ==> next.spec_next_stmt() >= self.spec_next_stmt(),
    {
        let conn = self.conn;
        let uv = match user_version(&conn) {
            Ok(v) => v,
            Err(e) => {
                return Err(rollback(&conn, e));
            },
        };
        if uv == S::version() {
            let declared_to = match declared_schema::<N>() {
                Ok(d) => d,
                Err(e) => {
                    return Err(rollback(&conn, e));
                },
            };
            let mut b = SchemaBuilder {
                conn: &conn,
                next_tmp: 0,
                next_stmt: self.next_stmt,
                drops: Vec::new(),
                renames: Vec::new(),
            };
            if let Err(e) = m.tables(&mut b) {
                return Err(rollback(&conn, e));
            }
            let SchemaBuilder { drops, renames, next_stmt, .. } = b;
            let no_params: Vec<SqlVal> = Vec::new();
            let mut i: usize = 0;
            while i < drops.len()
                decreases drops@.len() - i,
            {
                if let Err(e) = exec_sql(&conn, drops[i].as_str(), &no_params) {
                    return Err(rollback(&conn, Error::Sql(e)));
                }
                i = i + 1;
            }
            let mut i: usize = 0;
            while i < renames.len()
                decreases renames@.len() - i,
            {
                if let Err(e) = exec_sql(&conn, renames[i].as_str(), &no_params) {
                    return Err(rollback(&conn, Error::Sql(e)));
                }
                i = i + 1;
            }
            if let Err(e) = verify_store(&conn, &declared_to) {
                return Err(rollback(&conn, e));
            }
            if let Err(e) = set_user_version(&conn, N::version()) {
                return Err(rollback(&conn, e));
            }
            let ns = if next_stmt > self.next_stmt {
                next_stmt
            } else {
                self.next_stmt
            };
            return Ok(Migrator { conn, next_stmt: ns, _p: PhantomData });
        }
        Ok(Migrator { conn, next_stmt: self.next_stmt, _p: PhantomData })
    }

    /// Commit the migration transaction and return the database handle.
    /// Returns nothing when the live stamped version is not `S`'s — the
    /// store has moved past what this code path expects.  A failure is
    /// the store's own error or an ill-shaped reply.
    pub fn finish(self) -> (r: Result<Option<Database<S>>, Error>)
        ensures
            r matches Err(e) ==> e matches Error::Sql(_) || e matches Error::BadRow,
            r matches Ok(d) ==> (d matches Some(db) ==> db.spec_next_stmt()
                == self.spec_next_stmt()),
    {
        let conn = self.conn;
        let uv = match user_version(&conn) {
            Ok(v) => v,
            Err(e) => {
                return Err(rollback(&conn, e));
            },
        };
        if uv != S::version() {
            let _ = exec_batch(&conn, "ROLLBACK");
            return Ok(None);
        }
        if let Err(e) = exec_batch(&conn, "COMMIT") {
            return Err(Error::Sql(e));
        }
        if let Err(e) = exec_batch(&conn, "PRAGMA foreign_keys = ON") {
            return Err(Error::Sql(e));
        }
        Ok(Some(Database { conn, next_stmt: self.next_stmt, _p: PhantomData }))
    }
}

/// An open store at a verified schema version, ready for ordinary
/// queries.
pub struct Database<S> {
    pub(crate) conn: rusqlite::Connection,
    pub(crate) next_stmt: u64,
    pub(crate) _p: PhantomData<S>,
}

impl<S> Database<S> {
    /// The next statement token this store will issue, for
    /// specifications.
    pub closed spec fn spec_next_stmt(self) -> u64 {
        self.next_stmt
    }
}

impl<S: Schema> Database<S> {
    /// Begin one query: a fresh select plan under a fresh statement
    /// token, tied to this store.
    pub fn query(&mut self) -> (r: crate::exec::Query<'_>)
        ensures
            r.spec_rows().inv(),
            r.spec_rows().spec_stmt() == old(self).spec_next_stmt(),
            final(self).spec_next_stmt() >= old(self).spec_next_stmt(),
    {
        let stmt = self.next_stmt;
        if self.next_stmt < 0xffff_ffff_ffff_ffff {
            self.next_stmt = self.next_stmt + 1;
        }
        crate::exec::Query::new(&self.conn, Rows::new(stmt))
    }

    /// Begin one select plan under a fresh statement token, to be handed
    /// back through [`Database::attach`] once built.  The store handle is
    /// the sole issuer of tokens for plans it runs.
    pub fn rows(&mut self) -> (r: Rows)
        ensures
            r.inv(),
            r.spec_stmt() == old(self).spec_next_stmt(),
            r.spec_sources().len() == 0,
            r.spec_filters().len() == 0,
            r.spec_group().len() == 0,
            r.spec_aggr().len() == 0,
            r.spec_sort().len() == 0,
            r.spec_outer().len() == 0,
            final(self).spec_next_stmt() >= old(self).spec_next_stmt(),
    {
        let stmt = self.next_stmt;
        if self.next_stmt < 0xffff_ffff_ffff_ffff {
            self.next_stmt = self.next_stmt + 1;
        }
        Rows::new(stmt)
    }

    /// Bind a finished plan back to this store for execution.  Rejected
    /// exactly when the plan's statement token was never issued by this
    /// store.  The check cannot tell a token of another store apart from
    /// one of this store's own — that is the limit of the runtime
    /// scope check, since tokens are counters local to each store handle.
    pub fn attach(&self, rows: Rows) -> (r: Result<crate::exec::Query<'_>, Error>)
        ensures
            r is Ok <==> rows.spec_stmt() < self.spec_next_stmt(),
            r matches Ok(q) ==> q.spec_rows() == rows,
            r is Err ==> r == Result::<crate::exec::Query<'_>, Error>::Err(Error::ScopeMismatch),
    {
        if rows.stmt_token() < self.next_stmt {
            Ok(crate::exec::Query::new(&self.conn, rows))
        } else {
            Err(Error::ScopeMismatch)
        }
    }

    /// The store's stamped schema version.  What the store answers cannot
    /// be constrained; a failure is the store's own error or an
    /// ill-shaped reply.
    pub fn user_version(&self) -> (r: Result<i64, Error>)
        ensures
            r matches Err(e) ==> e matches Error::Sql(_) || e matches Error::BadRow,
    {
        user_version(&self.conn)
    }

    /// The underlying store connection, for structure inspection.
    pub fn connection(&self) -> &rusqlite::Connection {
        &self.conn
    }
}

} // verus!
