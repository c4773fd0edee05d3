//! The structural schema model.
//!
//! A schema is an ordered set of tables; a table is an ordered set of
//! columns plus a set of multi-column unique constraints.  Two models are
//! equal when every table, column, type, nullability, foreign key and
//! unique constraint matches; declaration order does not matter for
//! equality, while DDL emission uses the declared order.  The model both
//! drives DDL generation and is the target that the live database structure
//! is verified against after every migration step.

use vstd::prelude::*;
use crate::render::{check_ident, push_quoted, spec_is_ident, spec_quoted};
use crate::Error;

verus! {

/// A scalar storage type of the engine.
#[derive(Debug, Clone, Copy, PartialEq, Eq, Structural)]
pub enum ColTyp {
    Int,
    Text,
    Real,
}

/// A declared column: name, storage type, nullability, and an optional
/// foreign key (target table, target column).
#[derive(Debug)]
pub struct Column {
    pub name: String,
    pub typ: ColTyp,
    pub nullable: bool,
    pub fk: Option<(String, String)>,
}

/// A multi-column unique constraint; the column order is irrelevant.
#[derive(Debug)]
pub struct Unique {
    pub columns: Vec<String>,
}

/// A declared table: columns in declaration order plus unique constraints.
/// The integer primary key column `id` is implicit and never listed.
#[derive(Debug)]
pub struct TableDef {
    pub columns: Vec<Column>,
    pub uniques: Vec<Unique>,
}

/// A declared schema: tables with their names, in declaration order.
#[derive(Debug)]
pub struct SchemaDef {
    pub tables: Vec<(String, TableDef)>,
}

/// Spec-level mirror of [`Column`].
pub ghost struct ColumnV {
    pub name: Seq<char>,
    pub typ: ColTyp,
    pub nullable: bool,
    pub fk: Option<(Seq<char>, Seq<char>)>,
}

/// Spec-level mirror of [`TableDef`]; a unique constraint keeps its column
/// order for emission, while equality ignores it.
pub ghost struct TableV {
    pub columns: Seq<ColumnV>,
    pub uniques: Seq<Seq<Seq<char>>>,
}

/// The order-independent form of a table, used for equality.
pub ghost struct TableSetV {
    pub columns: Set<ColumnV>,
    pub uniques: Set<Set<Seq<char>>>,
}

impl View for Column {
    type V = ColumnV;

    open spec fn view(&self) -> ColumnV {
        ColumnV {
            name: self.name@,
            typ: self.typ,
            nullable: self.nullable,
            fk: match self.fk {
                Option::Some((t, c)) => Option::Some((t@, c@)),
                Option::None => Option::None,
            },
        }
    }
}

impl View for Unique {
    type V = Seq<Seq<char>>;

    open spec fn view(&self) -> Seq<Seq<char>> {
        self.columns@.map_values(|s: String| s@)
    }
}

impl View for TableDef {
    type V = TableV;

    open spec fn view(&self) -> TableV {
        TableV {
            columns: self.columns@.map_values(|c: Column| c@),
            uniques: self.uniques@.map_values(|u: Unique| u@),
        }
    }
}

impl View for SchemaDef {
    type V = Seq<(Seq<char>, TableV)>;

    open spec fn view(&self) -> Seq<(Seq<char>, TableV)> {
        self.tables@.map_values(|p: (String, TableDef)| (p.0@, p.1@))
    }
}

/// The order-independent form of a table.
pub open spec fn spec_table_canon(t: TableV) -> TableSetV {
    TableSetV {
        columns: t.columns.to_set(),
        uniques: t.uniques.map_values(|u: Seq<Seq<char>>| u.to_set()).to_set(),
    }
}

/// Equality of two tables under set semantics.
pub open spec fn spec_table_eq(a: TableV, b: TableV) -> bool {
    spec_table_canon(a) == spec_table_canon(b)
}

/// The order-independent form of a schema: the set of its named tables.
pub open spec fn spec_schema_canon(s: Seq<(Seq<char>, TableV)>) -> Set<(Seq<char>, TableSetV)> {
    s.map_values(|p: (Seq<char>, TableV)| (p.0, spec_table_canon(p.1))).to_set()
}

/// Equality of two schemas under set semantics: every table, column, type,
/// nullability, foreign key and unique constraint matches.
pub open spec fn spec_schema_eq(a: Seq<(Seq<char>, TableV)>, b: Seq<(Seq<char>, TableV)>) -> bool {
    spec_schema_canon(a) == spec_schema_canon(b)
}

/// An equal copy of a column.
pub fn column_dup(c: &Column) -> (r: Column)
    ensures
        r@ == c@,
{
    let fk = match &c.fk {
        Some((t, cc)) => Some((t.clone(), cc.clone())),
        None => None,
    };
    let r = Column { name: c.name.clone(), typ: c.typ, nullable: c.nullable, fk };
    proof {
        assert(r@ == c@);
    }
    r
}

/// Structural equality of columns.
pub fn column_eq(a: &Column, b: &Column) -> (r: bool)
    ensures
        r == (a@ == b@),
{
    let fk_ok = match (&a.fk, &b.fk) {
        (None, None) => true,
        (Some((t1, c1)), Some((t2, c2))) => *t1 == *t2 && *c1 == *c2,
        _ => false,
    };
    fk_ok && a.name == b.name && a.typ == b.typ && a.nullable == b.nullable
}

/// Whether `s` occurs in `v`.
fn contains_str(v: &Vec<String>, s: &String) -> (r: bool)
    ensures
        r == v@.map_values(|x: String| x@).contains(s@),
{
    let ghost m = v@.map_values(|x: String| x@);
    let mut i: usize = 0;
    let mut found = false;
    while i < v.len() && !found
        invariant
            m == v@.map_values(|x: String| x@),
            i <= v@.len(),
            found ==> m.contains(s@),
            !found ==> forall|j: int| 0 <= j < i ==> m[j] != s@,
        decreases v@.len() - i + (if found { 0int } else { 1int }),
    {
        if v[i] == *s {
            found = true;
            proof {
                assert(m[i as int] == s@);
            }
        } else {
            i = i + 1;
        }
    }
    proof {
        if !found {
            assert(forall|j: int| 0 <= j < m.len() ==> m[j] != s@);
        }
    }
    found
}

/// Equality of unique constraints: the same set of column names.
pub fn unique_eq(a: &Unique, b: &Unique) -> (r: bool)
    ensures
        r == (a@.to_set() == b@.to_set()),
{
    let fwd = all_contained(&a.columns, &b.columns);
    let bwd = all_contained(&b.columns, &a.columns);
    proof {
        let av = a.columns@.map_values(|s: String| s@);
        let bv = b.columns@.map_values(|s: String| s@);
        if fwd && bwd {
            assert(av.to_set() =~= bv.to_set());
        } else {
            if av.to_set() == bv.to_set() {
                assert forall|j: int| 0 <= j < a.columns@.len() implies bv.contains(
                    (#[trigger] a.columns@[j])@,
                ) by {
                    assert(av[j] == a.columns@[j]@);
                    assert(av.contains(av[j]));
                    assert(bv.to_set().contains(av[j]));
                };
                assert forall|j: int| 0 <= j < b.columns@.len() implies av.contains(
                    (#[trigger] b.columns@[j])@,
                ) by {
                    assert(bv[j] == b.columns@[j]@);
                    assert(bv.contains(bv[j]));
                    assert(av.to_set().contains(bv[j]));
                };
                assert(false);
            }
        }
    }
    fwd && bwd
}

/// Whether every string of `a` occurs in `b`.
fn all_contained(a: &Vec<String>, b: &Vec<String>) -> (r: bool)
    ensures
        r == (forall|j: int|
            0 <= j < a@.len() ==> b@.map_values(|x: String| x@).contains((#[trigger] a@[j])@)),
{
    let ghost av = a@.map_values(|x: String| x@);
    let ghost bv = b@.map_values(|x: String| x@);
    let mut i: usize = 0;
    let mut ok = true;
    while i < a.len() && ok
        invariant
            av == a@.map_values(|x: String| x@),
            bv == b@.map_values(|x: String| x@),
            i <= a@.len(),
            ok ==> forall|j: int| 0 <= j < i ==> bv.contains((#[trigger] a@[j])@),
            !ok ==> !(forall|j: int| 0 <= j < av.len() ==> bv.contains((#[trigger] a@[j])@)),
        decreases a@.len() - i + (if ok { 1int } else { 0int }),
    {
        if contains_str(b, &a[i]) {
            proof {
                assert(av[i as int] == a@[i as int]@);
            }
            i = i + 1;
        } else {
            proof {
                assert(av[i as int] == a@[i as int]@);
            }
            ok = false;
        }
    }
    ok
}

/// Whether a column equal to `c` occurs in `list`.
fn column_in(list: &Vec<Column>, c: &Column) -> (r: bool)
    ensures
        r == list@.map_values(|x: Column| x@).contains(c@),
{
    let ghost m = list@.map_values(|x: Column| x@);
    let mut i: usize = 0;
    let mut found = false;
    while i < list.len() && !found
        invariant
            m == list@.map_values(|x: Column| x@),
            i <= list@.len(),
            found ==> m.contains(c@),
            !found ==> forall|j: int| 0 <= j < i ==> m[j] != c@,
        decreases list@.len() - i + (if found { 0int } else { 1int }),
    {
        if column_eq(&list[i], c) {
            found = true;
            proof {
                assert(m[i as int] == c@);
            }
        } else {
            i = i + 1;
        }
    }
    proof {
        if !found {
            assert(forall|j: int| 0 <= j < m.len() ==> m[j] != c@);
        }
    }
    found
}

/// Whether every column of `a` occurs in `b`.
fn columns_subset(a: &Vec<Column>, b: &Vec<Column>) -> (r: bool)
    ensures
        r == (forall|j: int|
            0 <= j < a@.len() ==> b@.map_values(|x: Column| x@).contains((#[trigger] a@[j])@)),
{
    let mut i: usize = 0;
    let mut ok = true;
    while i < a.len() && ok
        invariant
            i <= a@.len(),
            ok ==> forall|j: int|
                0 <= j < i ==> b@.map_values(|x: Column| x@).contains((#[trigger] a@[j])@),
            !ok ==> !(forall|j: int|
                0 <= j < a@.len() ==> b@.map_values(|x: Column| x@).contains((#[trigger] a@[j])@)),
        decreases a@.len() - i + (if ok { 1int } else { 0int }),
    {
        if column_in(b, &a[i]) {
            proof {
                assert(a@.map_values(|x: Column| x@)[i as int] == a@[i as int]@);
            }
            i = i + 1;
        } else {
            proof {
                assert(a@.map_values(|x: Column| x@)[i as int] == a@[i as int]@);
            }
            ok = false;
        }
    }
    ok
}

/// Whether a unique constraint equal (as a set) to `u` occurs in `list`.
fn unique_in(list: &Vec<Unique>, u: &Unique) -> (r: bool)
    ensures
        r == list@.map_values(|x: Unique| x@.to_set()).contains(u@.to_set()),
{
    let ghost m = list@.map_values(|x: Unique| x@.to_set());
    let mut i: usize = 0;
    let mut found = false;
    while i < list.len() && !found
        invariant
            m == list@.map_values(|x: Unique| x@.to_set()),
            i <= list@.len(),
            found ==> m.contains(u@.to_set()),
            !found ==> forall|j: int| 0 <= j < i ==> m[j] != u@.to_set(),
        decreases list@.len() - i + (if found { 0int } else { 1int }),
    {
        if unique_eq(&list[i], u) {
            found = true;
            proof {
                assert(m[i as int] == u@.to_set());
            }
        } else {
            i = i + 1;
        }
    }
    proof {
        if !found {
            assert(forall|j: int| 0 <= j < m.len() ==> m[j] != u@.to_set());
        }
    }
    found
}

/// Whether every unique constraint of `a` occurs in `b` (as a set).
fn uniques_subset(a: &Vec<Unique>, b: &Vec<Unique>) -> (r: bool)
    ensures
        r == (forall|j: int|
            0 <= j < a@.len() ==> b@.map_values(|x: Unique| x@.to_set()).contains(
                (#[trigger] a@[j])@.to_set(),
            )),
{
    let mut i: usize = 0;
    let mut ok = true;
    while i < a.len() && ok
        invariant
            i <= a@.len(),
            ok ==> forall|j: int|
                0 <= j < i ==> b@.map_values(|x: Unique| x@.to_set()).contains(
                    (#[trigger] a@[j])@.to_set(),
                ),
            !ok ==> !(forall|j: int|
                0 <= j < a@.len() ==> b@.map_values(|x: Unique| x@.to_set()).contains(
                    (#[trigger] a@[j])@.to_set(),
                )),
        decreases a@.len() - i + (if ok { 1int } else { 0int }),
    {
        if unique_in(b, &a[i]) {
            proof {
                assert(a@.map_values(|x: Unique| x@.to_set())[i as int] == a@[i as int]@.to_set());
            }
            i = i + 1;
        } else {
            proof {
                assert(a@.map_values(|x: Unique| x@.to_set())[i as int] == a@[i as int]@.to_set());
            }
            ok = false;
        }
    }
    ok
}

/// Bridge: double containment of the mapped element sequences is exactly
/// equality of the canonical table forms.
proof fn lemma_table_eq_canon(a: TableV, b: TableV)
    requires
        forall|j: int| 0 <= j < a.columns.len() ==> b.columns.contains(#[trigger] a.columns[j]),
        forall|j: int| 0 <= j < b.columns.len() ==> a.columns.contains(#[trigger] b.columns[j]),
        forall|j: int|
            0 <= j < a.uniques.len() ==> b.uniques.map_values(|u: Seq<Seq<char>>| u.to_set()).contains(
                (#[trigger] a.uniques[j]).to_set(),
            ),
        forall|j: int|
            0 <= j < b.uniques.len() ==> a.uniques.map_values(|u: Seq<Seq<char>>| u.to_set()).contains(
                (#[trigger] b.uniques[j]).to_set(),
            ),
    ensures
        spec_table_eq(a, b),
{
    assert(a.columns.to_set() =~= b.columns.to_set());
    let au = a.uniques.map_values(|u: Seq<Seq<char>>| u.to_set());
    let bu = b.uniques.map_values(|u: Seq<Seq<char>>| u.to_set());
    assert forall|x: Set<Seq<char>>| au.to_set().contains(x) implies bu.to_set().contains(x) by {
        let j = choose|j: int| 0 <= j < au.len() && au[j] == x;
        assert(au[j] == a.uniques[j].to_set());
        assert(bu.contains(a.uniques[j].to_set()));
    };
    assert forall|x: Set<Seq<char>>| bu.to_set().contains(x) implies au.to_set().contains(x) by {
        let j = choose|j: int| 0 <= j < bu.len() && bu[j] == x;
        assert(bu[j] == b.uniques[j].to_set());
        assert(au.contains(b.uniques[j].to_set()));
    };
    assert(au.to_set() =~= bu.to_set());
}

/// Structural table equality under set semantics: the same columns and the
/// same unique constraints, in any order.
pub fn table_eq(a: &TableDef, b: &TableDef) -> (r: bool)
    ensures
        r == spec_table_eq(a@, b@),
{
    let c1 = columns_subset(&a.columns, &b.columns);
    let c2 = columns_subset(&b.columns, &a.columns);
    let u1 = uniques_subset(&a.uniques, &b.uniques);
    let u2 = uniques_subset(&b.uniques, &a.uniques);
    let r = c1 && c2 && u1 && u2;
    proof {
        let av = a@;
        let bv = b@;
        if r {
            assert forall|j: int| 0 <= j < av.columns.len() implies bv.columns.contains(
                #[trigger] av.columns[j],
            ) by {
                assert(av.columns[j] == a.columns@[j]@);
            };
            assert forall|j: int| 0 <= j < bv.columns.len() implies av.columns.contains(
                #[trigger] bv.columns[j],
            ) by {
                assert(bv.columns[j] == b.columns@[j]@);
            };
            lemma_uniques_view(a.uniques@);
            lemma_uniques_view(b.uniques@);
            assert forall|j: int| 0 <= j < av.uniques.len() implies bv.uniques.map_values(
                |u: Seq<Seq<char>>| u.to_set(),
            ).contains((#[trigger] av.uniques[j]).to_set()) by {
                assert(av.uniques.map_values(|u: Seq<Seq<char>>| u.to_set())[j] == av.uniques[j]
                    .to_set());
                assert(a.uniques@.map_values(|x: Unique| x@.to_set())[j] == a.uniques@[j]@.to_set());
            };
            assert forall|j: int| 0 <= j < bv.uniques.len() implies av.uniques.map_values(
                |u: Seq<Seq<char>>| u.to_set(),
            ).contains((#[trigger] bv.uniques[j]).to_set()) by {
                assert(bv.uniques.map_values(|u: Seq<Seq<char>>| u.to_set())[j] == bv.uniques[j]
                    .to_set());
                assert(b.uniques@.map_values(|x: Unique| x@.to_set())[j] == b.uniques@[j]@.to_set());
            };
            lemma_table_eq_canon(av, bv);
        } else {
            if spec_table_eq(av, bv) {
                lemma_uniques_view(a.uniques@);
                lemma_uniques_view(b.uniques@);
                lemma_canon_gives_containment(av, bv);
                assert forall|j: int| 0 <= j < a.columns@.len() implies b.columns@.map_values(
                    |x: Column| x@,
                ).contains((#[trigger] a.columns@[j])@) by {
                    assert(av.columns[j] == a.columns@[j]@);
                };
                assert forall|j: int| 0 <= j < b.columns@.len() implies a.columns@.map_values(
                    |x: Column| x@,
                ).contains((#[trigger] b.columns@[j])@) by {
                    assert(bv.columns[j] == b.columns@[j]@);
                };
                assert forall|j: int| 0 <= j < a.uniques@.len() implies b.uniques@.map_values(
                    |x: Unique| x@.to_set(),
                ).contains((#[trigger] a.uniques@[j])@.to_set()) by {
                    assert(av.uniques[j] == a.uniques@[j]@);
                };
                assert forall|j: int| 0 <= j < b.uniques@.len() implies a.uniques@.map_values(
                    |x: Unique| x@.to_set(),
                ).contains((#[trigger] b.uniques@[j])@.to_set()) by {
                    assert(bv.uniques[j] == b.uniques@[j]@);
                };
                assert(false);
            }
        }
    }
    r
}

/// The canonical entries of a table list, keyed by table name.
pub open spec fn spec_tables_canon(ts: Seq<(String, TableDef)>) -> Set<(Seq<char>, TableSetV)> {
    ts.map_values(|p: (String, TableDef)| (p.0@, spec_table_canon(p.1@))).to_set()
}

/// The canonical form computed from the exec table list agrees with the one
/// computed from the schema view.
proof fn lemma_tables_canon(ts: Seq<(String, TableDef)>)
    ensures
        spec_schema_canon(ts.map_values(|p: (String, TableDef)| (p.0@, p.1@))) == spec_tables_canon(
            ts,
        ),
{
    let v = ts.map_values(|p: (String, TableDef)| (p.0@, p.1@));
    let l = v.map_values(|p: (Seq<char>, TableV)| (p.0, spec_table_canon(p.1)));
    let r = ts.map_values(|p: (String, TableDef)| (p.0@, spec_table_canon(p.1@)));
    assert forall|k: int| 0 <= k < ts.len() implies l[k] == r[k] by {
        assert(v[k] == (ts[k].0@, ts[k].1@));
    };
    assert(l =~= r);
}

/// Whether an entry with name `name` and a table equal to `t` occurs in
/// `list`.
fn schema_entry_in(list: &Vec<(String, TableDef)>, name: &String, t: &TableDef) -> (r: bool)
    ensures
        r == spec_tables_canon(list@).contains((name@, spec_table_canon(t@))),
{
    let ghost m = list@.map_values(|p: (String, TableDef)| (p.0@, spec_table_canon(p.1@)));
    let mut i: usize = 0;
    let mut found = false;
    while i < list.len() && !found
        invariant
            m == list@.map_values(|p: (String, TableDef)| (p.0@, spec_table_canon(p.1@))),
            i <= list@.len(),
            found ==> m.contains((name@, spec_table_canon(t@))),
            !found ==> forall|j: int| 0 <= j < i ==> m[j] != (name@, spec_table_canon(t@)),
        decreases list@.len() - i + (if found { 0int } else { 1int }),
    {
        if list[i].0 == *name && table_eq(&list[i].1, t) {
            found = true;
            proof {
                assert(m[i as int] == (name@, spec_table_canon(t@)));
            }
        } else {
            i = i + 1;
            proof {
                assert(m[i - 1] == (list@[i - 1].0@, spec_table_canon(list@[i - 1].1@)));
            }
        }
    }
    proof {
        if !found {
            assert(forall|j: int| 0 <= j < m.len() ==> m[j] != (name@, spec_table_canon(t@)));
        }
    }
    found
}

/// Whether every named table of `a` has an equal counterpart in `b`.
fn schema_subset(a: &Vec<(String, TableDef)>, b: &Vec<(String, TableDef)>) -> (r: bool)
    ensures
        r == (forall|j: int|
            0 <= j < a@.len() ==> spec_tables_canon(b@).contains(
                ((#[trigger] a@[j]).0@, spec_table_canon(a@[j].1@)),
            )),
{
    let mut i: usize = 0;
    let mut ok = true;
    while i < a.len() && ok
        invariant
            i <= a@.len(),
            ok ==> forall|j: int|
                0 <= j < i ==> spec_tables_canon(b@).contains(
                    ((#[trigger] a@[j]).0@, spec_table_canon(a@[j].1@)),
                ),
            !ok ==> !(forall|j: int|
                0 <= j < a@.len() ==> spec_tables_canon(b@).contains(
                    ((#[trigger] a@[j]).0@, spec_table_canon(a@[j].1@)),
                )),
        decreases a@.len() - i + (if ok { 1int } else { 0int }),
    {
        if schema_entry_in(b, &a[i].0, &a[i].1) {
            i = i + 1;
        } else {
            ok = false;
        }
    }
    ok
}

/// Structural schema equality under set semantics: every table, column,
/// type, nullability, foreign key and unique constraint matches, in any
/// declaration order.
pub fn schema_eq(a: &SchemaDef, b: &SchemaDef) -> (r: bool)
    ensures
        r == spec_schema_eq(a@, b@),
{
    let fwd = schema_subset(&a.tables, &b.tables);
    let bwd = schema_subset(&b.tables, &a.tables);
    let r = fwd && bwd;
    proof {
        lemma_tables_canon(a.tables@);
        lemma_tables_canon(b.tables@);
        let ac = spec_tables_canon(a.tables@);
        let bc = spec_tables_canon(b.tables@);
        let am = a.tables@.map_values(|p: (String, TableDef)| (p.0@, spec_table_canon(p.1@)));
        let bm = b.tables@.map_values(|p: (String, TableDef)| (p.0@, spec_table_canon(p.1@)));
        if r {
            assert forall|x: (Seq<char>, TableSetV)| ac.contains(x) implies bc.contains(x) by {
                let j = choose|j: int| 0 <= j < am.len() && am[j] == x;
                assert(am[j] == (a.tables@[j].0@, spec_table_canon(a.tables@[j].1@)));
            };
            assert forall|x: (Seq<char>, TableSetV)| bc.contains(x) implies ac.contains(x) by {
                let j = choose|j: int| 0 <= j < bm.len() && bm[j] == x;
                assert(bm[j] == (b.tables@[j].0@, spec_table_canon(b.tables@[j].1@)));
            };
            assert(ac =~= bc);
        } else {
            if ac == bc {
                assert forall|j: int| 0 <= j < a.tables@.len() implies bc.contains(
                    ((#[trigger] a.tables@[j]).0@, spec_table_canon(a.tables@[j].1@)),
                ) by {
                    assert(am[j] == (a.tables@[j].0@, spec_table_canon(a.tables@[j].1@)));
                    assert(am.contains(am[j]));
                    assert(ac.contains(am[j]));
                };
                assert forall|j: int| 0 <= j < b.tables@.len() implies ac.contains(
                    ((#[trigger] b.tables@[j]).0@, spec_table_canon(b.tables@[j].1@)),
                ) by {
                    assert(bm[j] == (b.tables@[j].0@, spec_table_canon(b.tables@[j].1@)));
                    assert(bm.contains(bm[j]));
                    assert(bc.contains(bm[j]));
                };
                assert(false);
            }
        }
    }
    r
}

/// Mapping each element's view to a set commutes with mapping to views and
/// then to sets.
proof fn lemma_uniques_view(u: Seq<Unique>)
    ensures
        u.map_values(|x: Unique| x@).map_values(|q: Seq<Seq<char>>| q.to_set()) == u.map_values(
            |x: Unique| x@.to_set(),
        ),
{
    let l = u.map_values(|x: Unique| x@).map_values(|q: Seq<Seq<char>>| q.to_set());
    let r = u.map_values(|x: Unique| x@.to_set());
    assert forall|k: int| 0 <= k < u.len() implies l[k] == r[k] by {
        assert(u.map_values(|x: Unique| x@)[k] == u[k]@);
    };
    assert(l =~= r);
}

/// Bridge in the other direction: canonical equality gives element-wise
/// containment of the mapped sequences, both ways.
proof fn lemma_canon_gives_containment(a: TableV, b: TableV)
    requires
        spec_table_eq(a, b),
    ensures
        forall|j: int| 0 <= j < a.columns.len() ==> b.columns.contains(#[trigger] a.columns[j]),
        forall|j: int| 0 <= j < b.columns.len() ==> a.columns.contains(#[trigger] b.columns[j]),
        forall|j: int|
            0 <= j < a.uniques.len() ==> b.uniques.map_values(|u: Seq<Seq<char>>| u.to_set()).contains(
                (#[trigger] a.uniques[j]).to_set(),
            ),
        forall|j: int|
            0 <= j < b.uniques.len() ==> a.uniques.map_values(|u: Seq<Seq<char>>| u.to_set()).contains(
                (#[trigger] b.uniques[j]).to_set(),
            ),
{
    assert forall|j: int| 0 <= j < a.columns.len() implies b.columns.contains(
        #[trigger] a.columns[j],
    ) by {
        assert(a.columns.contains(a.columns[j]));
        assert(b.columns.to_set().contains(a.columns[j]));
    };
    assert forall|j: int| 0 <= j < b.columns.len() implies a.columns.contains(
        #[trigger] b.columns[j],
    ) by {
        assert(b.columns.contains(b.columns[j]));
        assert(a.columns.to_set().contains(b.columns[j]));
    };
    let au = a.uniques.map_values(|u: Seq<Seq<char>>| u.to_set());
    let bu = b.uniques.map_values(|u: Seq<Seq<char>>| u.to_set());
    assert forall|j: int| 0 <= j < a.uniques.len() implies bu.contains(
        (#[trigger] a.uniques[j]).to_set(),
    ) by {
        assert(au[j] == a.uniques[j].to_set());
        assert(au.contains(au[j]));
        assert(bu.to_set().contains(au[j]));
    };
    assert forall|j: int| 0 <= j < b.uniques.len() implies au.contains(
        (#[trigger] b.uniques[j]).to_set(),
    ) by {
        assert(bu[j] == b.uniques[j].to_set());
        assert(bu.contains(bu[j]));
        assert(au.to_set().contains(bu[j]));
    };
}

/// Well-formedness of a column: a valid name other than the implicit `id`,
/// and valid foreign-key target names.
pub open spec fn spec_col_wf(c: ColumnV) -> bool {
    &&& spec_is_ident(c.name)
    &&& c.name != "id"@
    &&& (c.fk matches Option::Some((t, cc)) ==> spec_is_ident(t) && spec_is_ident(cc))
}

/// Whether a column named `n` occurs in `cols`.
pub open spec fn spec_has_col(cols: Seq<ColumnV>, n: Seq<char>) -> bool {
    exists|i: int| 0 <= i < cols.len() && (#[trigger] cols[i]).name == n
}

/// Well-formedness of a table: well-formed columns with pairwise distinct
/// names, and unique constraints over valid identifiers.
pub open spec fn spec_table_wf(t: TableV) -> bool {
    &&& forall|i: int| 0 <= i < t.columns.len() ==> spec_col_wf(#[trigger] t.columns[i])
    &&& forall|i: int, j: int|
        0 <= i < j < t.columns.len() ==> t.columns[i].name != t.columns[j].name
    &&& forall|i: int, j: int|
        0 <= i < t.uniques.len() && 0 <= j < t.uniques[i].len() ==> spec_is_ident(
            #[trigger] t.uniques[i][j],
        )
}

/// Well-formedness of a schema: valid distinct table names, each table
/// well-formed.
pub open spec fn spec_schema_wf(s: Seq<(Seq<char>, TableV)>) -> bool {
    &&& forall|i: int|
        0 <= i < s.len() ==> spec_is_ident((#[trigger] s[i]).0) && spec_table_wf(s[i].1)
    &&& forall|i: int, j: int| 0 <= i < j < s.len() ==> s[i].0 != s[j].0
}

/// Check that `s` is exactly the reserved identity column name.
pub fn is_id_name(s: &str) -> (r: bool)
    ensures
        r == (s@ == "id"@),
{
    proof {
        reveal_strlit("id");
    }
    let r = s.unicode_len() == 2 && s.get_char(0) == 'i' && s.get_char(1) == 'd';
    proof {
        if r {
            assert(s@ =~= "id"@);
        }
    }
    r
}

/// Check whether a column named `n` occurs in `cols`.
pub fn has_col(cols: &Vec<Column>, n: &str) -> (r: bool)
    ensures
        r == spec_has_col(cols@.map_values(|c: Column| c@), n@),
{
    let ghost m = cols@.map_values(|c: Column| c@);
    let mut i: usize = 0;
    let mut found = false;
    while i < cols.len() && !found
        invariant
            m == cols@.map_values(|c: Column| c@),
            i <= cols@.len(),
            found ==> spec_has_col(m, n@),
            !found ==> forall|j: int| 0 <= j < i ==> (#[trigger] m[j]).name != n@,
        decreases cols@.len() - i + (if found { 0int } else { 1int }),
    {
        if str_eq(cols[i].name.as_str(), n) {
            found = true;
            proof {
                assert(m[i as int].name == n@);
            }
        } else {
            i = i + 1;
        }
    }
    found
}

/// Structural equality of two string slices.
pub fn str_eq(a: &str, b: &str) -> (r: bool)
    ensures
        r == (a@ == b@),
{
    let r = String::from_str(a) == String::from_str(b);
    r
}

/// An equal copy of a column list.
pub fn columns_dup(cols: &Vec<Column>) -> (r: Vec<Column>)
    ensures
        r@.map_values(|c: Column| c@) == cols@.map_values(|c: Column| c@),
{
    let mut out: Vec<Column> = Vec::new();
    let mut i: usize = 0;
    while i < cols.len()
        invariant
            i <= cols@.len(),
            out@.len() == i,
            forall|j: int| 0 <= j < i ==> (#[trigger] out@[j])@ == cols@[j]@,
        decreases cols@.len() - i,
    {
        out.push(column_dup(&cols[i]));
        i = i + 1;
    }
    proof {
        let l = out@.map_values(|c: Column| c@);
        let rr = cols@.map_values(|c: Column| c@);
        assert forall|j: int| 0 <= j < cols@.len() implies l[j] == rr[j] by {
            assert(out@[j]@ == cols@[j]@);
        };
        assert(l =~= rr);
    }
    out
}

/// Describes how a declared field type maps to the storage layer: its
/// scalar storage type, nullability, and an optional foreign-key target.
/// Implemented by the scalar field types and by generated table types;
/// the spec-level descriptions let column declarations carry exact
/// contracts.
pub trait MyTyp {
    /// The storage type of a column of this type, for specifications.
    spec fn spec_typ() -> ColTyp;

    /// Whether a column of this type admits NULL, for specifications.
    spec fn spec_nullable() -> bool;

    /// The (target table, target column) pair when this type is a
    /// reference to another table's rows, for specifications.
    spec fn spec_fk() -> Option<(Seq<char>, Seq<char>)>;

    /// The storage type of a column of this type.
    fn typ() -> (r: ColTyp)
        ensures
            r == Self::spec_typ(),
    ;

    /// Whether a column of this type admits NULL.
    fn nullable() -> (r: bool)
        ensures
            r == Self::spec_nullable(),
    ;

    /// The (target table, target column) pair when this type is a
    /// reference to another table's rows.
    fn fk() -> (r: Option<(String, String)>)
        ensures
            match r {
                Option::Some(p) => Self::spec_fk() matches Option::Some(q) && q == (p.0@, p.1@),
                Option::None => Self::spec_fk() is None,
            },
    ;
}

impl MyTyp for i64 {
    open spec fn spec_typ() -> ColTyp {
        ColTyp::Int
    }

    open spec fn spec_nullable() -> bool {
        false
    }

    open spec fn spec_fk() -> Option<(Seq<char>, Seq<char>)> {
        Option::None
    }

    fn typ() -> ColTyp {
        ColTyp::Int
    }

    fn nullable() -> bool {
        false
    }

    fn fk() -> Option<(String, String)> {
        None
    }
}

impl MyTyp for bool {
    open spec fn spec_typ() -> ColTyp {
        ColTyp::Int
    }

    open spec fn spec_nullable() -> bool {
        false
    }

    open spec fn spec_fk() -> Option<(Seq<char>, Seq<char>)> {
        Option::None
    }

    fn typ() -> ColTyp {
        ColTyp::Int
    }

    fn nullable() -> bool {
        false
    }

    fn fk() -> Option<(String, String)> {
        None
    }
}

impl MyTyp for String {
    open spec fn spec_typ() -> ColTyp {
        ColTyp::Text
    }

    open spec fn spec_nullable() -> bool {
        false
    }

    open spec fn spec_fk() -> Option<(Seq<char>, Seq<char>)> {
        Option::None
    }

    fn typ() -> ColTyp {
        ColTyp::Text
    }

    fn nullable() -> bool {
        false
    }

    fn fk() -> Option<(String, String)> {
        None
    }
}

impl<T: MyTyp> MyTyp for Option<T> {
    open spec fn spec_typ() -> ColTyp {
        T::spec_typ()
    }

    open spec fn spec_nullable() -> bool {
        true
    }

    open spec fn spec_fk() -> Option<(Seq<char>, Seq<char>)> {
        T::spec_fk()
    }

    fn typ() -> ColTyp {
        T::typ()
    }

    fn nullable() -> bool {
        true
    }

    fn fk() -> Option<(String, String)> {
        T::fk()
    }
}

/// Collects the declared columns and unique constraints of one table.
pub struct TypBuilder {
    pub(crate) ast: TableDef,
}

impl View for TypBuilder {
    type V = TableV;

    closed spec fn view(&self) -> TableV {
        self.ast@
    }
}

impl TypBuilder {
    /// An empty table declaration.
    pub fn new() -> (r: TypBuilder)
        ensures
            r@.columns.len() == 0,
            r@.uniques.len() == 0,
            spec_table_wf(r@),
    {
        TypBuilder { ast: TableDef { columns: Vec::new(), uniques: Vec::new() } }
    }

    /// Declare a column with explicit storage type, nullability and
    /// foreign key.  Rejected exactly when the name is invalid, collides
    /// with the implicit `id` column or an earlier column, or a foreign-key
    /// name is invalid.
    pub fn col_raw(
        &mut self,
        name: &str,
        typ: ColTyp,
        nullable: bool,
        fk: Option<(String, String)>,
    ) -> (r: Result<(), Error>)
        requires
            spec_table_wf(old(self)@),
        ensures
            spec_table_wf(final(self)@),
            ({
                let c = ColumnV {
                    name: name@,
                    typ,
                    nullable,
                    fk: match fk {
                        Option::Some((t, cc)) => Option::Some((t@, cc@)),
                        Option::None => Option::None,
                    },
                };
                let ok = spec_col_wf(c) && !spec_has_col(old(self)@.columns, name@);
                &&& r is Ok <==> ok
                &&& r is Ok ==> final(self)@.columns == old(self)@.columns.push(c)
                    && final(self)@.uniques == old(self)@.uniques
                &&& r is Err ==> final(self)@ == old(self)@
            }),
    {
        let fk_ok = match &fk {
            Some((t, c)) => check_ident(t.as_str()) && check_ident(c.as_str()),
            None => true,
        };
        if !check_ident(name) || is_id_name(name) || !fk_ok || has_col(&self.ast.columns, name) {
            return Err(Error::UnknownColumn);
        }
        let c = Column { name: String::from_str(name), typ, nullable, fk };
        proof {
            let cv = c@;
            let cols = self.ast.columns@.map_values(|x: Column| x@);
            assert(spec_col_wf(cv));
            assert(!spec_has_col(cols, name@));
        }
        self.ast.columns.push(c);
        proof {
            let oldcols = old(self)@.columns;
            let newcols = self.ast.columns@.map_values(|x: Column| x@);
            assert(newcols =~= oldcols.push(newcols.last()));
            assert forall|i: int, j: int|
                0 <= i < j < newcols.len() implies newcols[i].name != newcols[j].name by {
                if j < newcols.len() - 1 {
                    assert(newcols[i] == oldcols[i] && newcols[j] == oldcols[j]);
                } else {
                    assert(newcols[i] == oldcols[i]);
                    assert(!spec_has_col(oldcols, newcols[j].name));
                }
            };
            assert forall|i: int| 0 <= i < newcols.len() implies spec_col_wf(
                #[trigger] newcols[i],
            ) by {
                if i < newcols.len() - 1 {
                    assert(newcols[i] == oldcols[i]);
                }
            };
            assert forall|i: int, j: int|
                0 <= i < self@.uniques.len() && 0 <= j < self@.uniques[i].len() implies spec_is_ident(
                #[trigger] self@.uniques[i][j],
            ) by {
                assert(self@.uniques[i] == old(self)@.uniques[i]);
            };
        }
        Ok(())
    }

    /// Declare a column whose storage description comes from the field
    /// type `T`: its storage type, nullability and foreign key are exactly
    /// `T`'s spec-level description.
    pub fn col<T: MyTyp>(&mut self, name: &str) -> (r: Result<(), Error>)
        requires
            spec_table_wf(old(self)@),
        ensures
            spec_table_wf(final(self)@),
            final(self)@.uniques == old(self)@.uniques,
            ({
                let c = ColumnV {
                    name: name@,
                    typ: T::spec_typ(),
                    nullable: T::spec_nullable(),
                    fk: T::spec_fk(),
                };
                let ok = spec_col_wf(c) && !spec_has_col(old(self)@.columns, name@);
                &&& r is Ok <==> ok
                &&& r is Ok ==> final(self)@.columns == old(self)@.columns.push(c)
                &&& r is Err ==> final(self)@ == old(self)@
            }),
    {
        let fk = T::fk();
        proof {
            let cv = ColumnV {
                name: name@,
                typ: T::spec_typ(),
                nullable: T::spec_nullable(),
                fk: T::spec_fk(),
            };
            match &fk {
                Option::Some(p) => {
                    assert(cv.fk == Option::Some((p.0@, p.1@)));
                },
                Option::None => {
                    assert(cv.fk is None);
                },
            }
        }
        self.col_raw(name, T::typ(), T::nullable(), fk)
    }

    /// Declare a multi-column unique constraint.  Rejected exactly when
    /// one of the names is not a valid identifier.
    #[verifier::loop_isolation(false)]
    pub fn unique(&mut self, cols: &[&'static str]) -> (r: Result<(), Error>)
        requires
            spec_table_wf(old(self)@),
        ensures
            spec_table_wf(final(self)@),
            final(self)@.columns == old(self)@.columns,
            ({
                let named = Seq::new(cols@.len(), |i: int| cols@[i]@);
                let ok = forall|i: int| 0 <= i < cols@.len() ==> spec_is_ident((#[trigger] cols@[i])@);
                &&& r is Ok <==> ok
                &&& r is Ok ==> final(self)@.uniques == old(self)@.uniques.push(named)
                &&& r is Err ==> final(self)@ == old(self)@
            }),
    {
        let mut names: Vec<String> = Vec::new();
        let mut i: usize = 0;
        while i < cols.len()
            invariant
                i <= cols@.len(),
                names@.len() == i,
                forall|j: int| 0 <= j < i ==> (#[trigger] names@[j])@ == cols@[j]@,
                forall|j: int| 0 <= j < i ==> spec_is_ident((#[trigger] cols@[j])@),
            decreases cols@.len() - i,
        {
            if !check_ident(cols[i]) {
                return Err(Error::UnknownColumn);
            }
            names.push(String::from_str(cols[i]));
            i = i + 1;
        }
        let u = Unique { columns: names };
        proof {
            let named = Seq::new(cols@.len(), |i: int| cols@[i]@);
            assert(u@ =~= named);
        }
        self.ast.uniques.push(u);
        proof {
            assert(self.ast.uniques@.map_values(|x: Unique| x@) =~= old(
                self,
            )@.uniques.push(u@));
        }
        Ok(())
    }
}

/// The storage type keyword.
pub open spec fn spec_coltyp_sql(t: ColTyp) -> Seq<char> {
    match t {
        ColTyp::Int => "INTEGER"@,
        ColTyp::Text => "TEXT"@,
        ColTyp::Real => "REAL"@,
    }
}

/// The column clause emitted for `c`.
pub open spec fn spec_col_sql(c: ColumnV) -> Seq<char> {
    ", "@ + spec_quoted(c.name) + " "@ + spec_coltyp_sql(c.typ) + (if c.nullable {
        Seq::<char>::empty()
    } else {
        " NOT NULL"@
    })
}

/// The column clauses of a table, in declaration order.
pub open spec fn spec_cols_sql(cols: Seq<ColumnV>) -> Seq<char>
    decreases cols.len(),
{
    if cols.len() == 0 {
        Seq::empty()
    } else {
        spec_cols_sql(cols.drop_last()) + spec_col_sql(cols.last())
    }
}

/// The foreign-key clause emitted for `c`, empty when `c` has none.
pub open spec fn spec_fk_sql(c: ColumnV) -> Seq<char> {
    match c.fk {
        Option::Some((t, cc)) => ", FOREIGN KEY("@ + spec_quoted(c.name) + ") REFERENCES "@
            + spec_quoted(t) + "("@ + spec_quoted(cc) + ")"@,
        Option::None => Seq::empty(),
    }
}

/// The foreign-key clauses of a table, in column order.
pub open spec fn spec_fks_sql(cols: Seq<ColumnV>) -> Seq<char>
    decreases cols.len(),
{
    if cols.len() == 0 {
        Seq::empty()
    } else {
        spec_fks_sql(cols.drop_last()) + spec_fk_sql(cols.last())
    }
}

/// The quoted column names of one unique constraint, comma-separated.
pub open spec fn spec_unique_cols_sql(u: Seq<Seq<char>>) -> Seq<char>
    decreases u.len(),
{
    if u.len() == 0 {
        Seq::empty()
    } else if u.len() == 1 {
        spec_quoted(u.last())
    } else {
        spec_unique_cols_sql(u.drop_last()) + ", "@ + spec_quoted(u.last())
    }
}

/// The clause emitted for one unique constraint.
pub open spec fn spec_unique_sql(u: Seq<Seq<char>>) -> Seq<char> {
    ", UNIQUE("@ + spec_unique_cols_sql(u) + ")"@
}

/// The unique-constraint clauses of a table, in declaration order.
pub open spec fn spec_uniques_sql(us: Seq<Seq<Seq<char>>>) -> Seq<char>
    decreases us.len(),
{
    if us.len() == 0 {
        Seq::empty()
    } else {
        spec_uniques_sql(us.drop_last()) + spec_unique_sql(us.last())
    }
}

/// The `CREATE TABLE` statement for table `name` with structure `t`: the
/// implicit integer primary key `id` first, the declared columns in order,
/// then foreign keys and unique constraints, in strict typing mode.
pub open spec fn spec_create_table_sql(name: Seq<char>, t: TableV) -> Seq<char> {
    "CREATE TABLE "@ + spec_quoted(name) + " (\"id\" INTEGER PRIMARY KEY"@ + spec_cols_sql(
        t.columns,
    ) + spec_fks_sql(t.columns) + spec_uniques_sql(t.uniques) + ") STRICT"@
}

/// Append the column clause for `c`.
fn push_col_sql(out: &mut String, c: &Column)
    requires
        spec_col_wf(c@),
    ensures
        final(out)@ == old(out)@ + spec_col_sql(c@),
{
    out.append(", ");
    push_quoted(out, c.name.as_str());
    out.append(" ");
    match c.typ {
        ColTyp::Int => out.append("INTEGER"),
        ColTyp::Text => out.append("TEXT"),
        ColTyp::Real => out.append("REAL"),
    }
    if !c.nullable {
        out.append(" NOT NULL");
    }
    proof {
        assert(final(out)@ =~= old(out)@ + spec_col_sql(c@));
    }
}

/// Append the foreign-key clause for `c`, if any.
fn push_fk_sql(out: &mut String, c: &Column)
    requires
        spec_col_wf(c@),
    ensures
        final(out)@ == old(out)@ + spec_fk_sql(c@),
{
    match &c.fk {
        Some((t, cc)) => {
            out.append(", FOREIGN KEY(");
            push_quoted(out, c.name.as_str());
            out.append(") REFERENCES ");
            push_quoted(out, t.as_str());
            out.append("(");
            push_quoted(out, cc.as_str());
            out.append(")");
            proof {
                assert(final(out)@ =~= old(out)@ + spec_fk_sql(c@));
            }
        },
        None => {
            proof {
                assert(final(out)@ =~= old(out)@ + spec_fk_sql(c@));
            }
        },
    }
}

/// Append the clause for one unique constraint.
#[verifier::loop_isolation(false)]
fn push_unique_sql(out: &mut String, u: &Unique)
    requires
        forall|j: int| 0 <= j < u@.len() ==> spec_is_ident(#[trigger] u@[j]),
    ensures
        final(out)@ == old(out)@ + spec_unique_sql(u@),
{
    out.append(", UNIQUE(");
    let ghost base = out@;
    let mut i: usize = 0;
    while i < u.columns.len()
        invariant
            i <= u.columns@.len(),
            out@ == base + spec_unique_cols_sql(u@.take(i as int)),
        decreases u.columns@.len() - i,
    {
        proof {
            assert(u@[i as int] == u.columns@[i as int]@);
        }
        if i > 0 {
            out.append(", ");
        }
        push_quoted(out, u.columns[i].as_str());
        proof {
            assert(u@.take(i + 1).drop_last() =~= u@.take(i as int));
            assert(u@.take(i + 1).last() == u@[i as int]);
            assert(out@ =~= base + spec_unique_cols_sql(u@.take(i + 1)));
        }
        i = i + 1;
    }
    out.append(")");
    proof {
        assert(u@.take(u@.len() as int) =~= u@);
        assert(final(out)@ =~= old(out)@ + spec_unique_sql(u@));
    }
}

/// Append the column clauses of `t`, in declaration order.
#[verifier::loop_isolation(false)]
fn push_cols_sql(out: &mut String, t: &TableDef)
    requires
        spec_table_wf(t@),
    ensures
        final(out)@ == old(out)@ + spec_cols_sql(t@.columns),
{
    let ghost base = out@;
    let mut i: usize = 0;
    while i < t.columns.len()
        invariant
            i <= t.columns@.len(),
            out@ == base + spec_cols_sql(t@.columns.take(i as int)),
        decreases t.columns@.len() - i,
    {
        proof {
            assert(t@.columns[i as int] == t.columns@[i as int]@);
        }
        push_col_sql(out, &t.columns[i]);
        proof {
            assert(t@.columns.take(i + 1).drop_last() =~= t@.columns.take(i as int));
            assert(t@.columns.take(i + 1).last() == t@.columns[i as int]);
            assert(out@ =~= base + spec_cols_sql(t@.columns.take(i + 1)));
        }
        i = i + 1;
    }
    proof {
        assert(t@.columns.take(t@.columns.len() as int) =~= t@.columns);
    }
}

/// Append the foreign-key clauses of `t`, in column order.
#[verifier::loop_isolation(false)]
fn push_fks_sql(out: &mut String, t: &TableDef)
    requires
        spec_table_wf(t@),
    ensures
        final(out)@ == old(out)@ + spec_fks_sql(t@.columns),
{
    let ghost base = out@;
    let mut i: usize = 0;
    while i < t.columns.len()
        invariant
            i <= t.columns@.len(),
            out@ == base + spec_fks_sql(t@.columns.take(i as int)),
        decreases t.columns@.len() - i,
    {
        proof {
            assert(t@.columns[i as int] == t.columns@[i as int]@);
        }
        push_fk_sql(out, &t.columns[i]);
        proof {
            assert(t@.columns.take(i + 1).drop_last() =~= t@.columns.take(i as int));
            assert(t@.columns.take(i + 1).last() == t@.columns[i as int]);
            assert(out@ =~= base + spec_fks_sql(t@.columns.take(i + 1)));
        }
        i = i + 1;
    }
    proof {
        assert(t@.columns.take(t@.columns.len() as int) =~= t@.columns);
    }
}

/// Append the unique-constraint clauses of `t`, in declaration order.
#[verifier::loop_isolation(false)]
fn push_uniques_sql(out: &mut String, t: &TableDef)
    requires
        spec_table_wf(t@),
    ensures
        final(out)@ == old(out)@ + spec_uniques_sql(t@.uniques),
{
    let ghost base = out@;
    let mut i: usize = 0;
    while i < t.uniques.len()
        invariant
            i <= t.uniques@.len(),
            out@ == base + spec_uniques_sql(t@.uniques.take(i as int)),
        decreases t.uniques@.len() - i,
    {
        proof {
            assert(t@.uniques[i as int] == t.uniques@[i as int]@);
        }
        push_unique_sql(out, &t.uniques[i]);
        proof {
            assert(t@.uniques.take(i + 1).drop_last() =~= t@.uniques.take(i as int));
            assert(t@.uniques.take(i + 1).last() == t@.uniques[i as int]);
            assert(out@ =~= base + spec_uniques_sql(t@.uniques.take(i + 1)));
        }
        i = i + 1;
    }
    proof {
        assert(t@.uniques.take(t@.uniques.len() as int) =~= t@.uniques);
    }
}

/// Emit the `CREATE TABLE` statement for `name` with structure `t`.
pub fn create_table_sql(name: &str, t: &TableDef) -> (r: String)
    requires
        spec_is_ident(name@),
        spec_table_wf(t@),
    ensures
        r@ == spec_create_table_sql(name@, t@),
{
    let mut out = String::new();
    out.append("CREATE TABLE ");
    push_quoted(&mut out, name);
    out.append(" (\"id\" INTEGER PRIMARY KEY");
    push_cols_sql(&mut out, t);
    push_fks_sql(&mut out, t);
    push_uniques_sql(&mut out, t);
    out.append(") STRICT");
    proof {
        assert(out@ =~= spec_create_table_sql(name@, t@));
    }
    out
}

/// The `DROP TABLE` statement for `name`.
pub open spec fn spec_drop_table_sql(name: Seq<char>) -> Seq<char> {
    "DROP TABLE "@ + spec_quoted(name)
}

/// Emit the `DROP TABLE` statement for `name`.
pub fn drop_table_sql(name: &str) -> (r: String)
    requires
        spec_is_ident(name@),
    ensures
        r@ == spec_drop_table_sql(name@),
{
    let mut out = String::new();
    out.append("DROP TABLE ");
    push_quoted(&mut out, name);
    proof {
        assert(out@ =~= spec_drop_table_sql(name@));
    }
    out
}

/// The rename statement moving table `from` to `to`.
pub open spec fn spec_rename_table_sql(from: Seq<char>, to: Seq<char>) -> Seq<char> {
    "ALTER TABLE "@ + spec_quoted(from) + " RENAME TO "@ + spec_quoted(to)
}

/// Emit the rename statement moving table `from` to `to`.
pub fn rename_table_sql(from: &str, to: &str) -> (r: String)
    requires
        spec_is_ident(from@),
        spec_is_ident(to@),
    ensures
        r@ == spec_rename_table_sql(from@, to@),
{
    let mut out = String::new();
    out.append("ALTER TABLE ");
    push_quoted(&mut out, from);
    out.append(" RENAME TO ");
    push_quoted(&mut out, to);
    proof {
        assert(out@ =~= spec_rename_table_sql(from@, to@));
    }
    out
}

/// Check one column's well-formedness.
pub fn col_wf_check(c: &Column) -> (r: bool)
    ensures
        r == spec_col_wf(c@),
{
    let fk_ok = match &c.fk {
        Some((t, cc)) => check_ident(t.as_str()) && check_ident(cc.as_str()),
        None => true,
    };
    check_ident(c.name.as_str()) && !is_id_name(c.name.as_str()) && fk_ok
}

/// Check a whole table declaration's well-formedness.
#[verifier::loop_isolation(false)]
pub fn table_wf_check(t: &TableDef) -> (r: bool)
    ensures
        r == spec_table_wf(t@),
{
    let n = t.columns.len();
    let mut i: usize = 0;
    while i < n
        invariant
            i <= n,
            forall|k: int| 0 <= k < i ==> spec_col_wf(#[trigger] t@.columns[k]),
            forall|a: int, b: int|
                0 <= a < i && a < b < n ==> (#[trigger] t@.columns[a]).name != (
                #[trigger] t@.columns[b]).name,
        decreases n - i,
    {
        proof {
            assert(t@.columns[i as int] == t.columns@[i as int]@);
        }
        if !col_wf_check(&t.columns[i]) {
            return false;
        }
        let mut j: usize = i + 1;
        while j < n
            invariant
                i < j <= n,
                forall|k: int| i < k < j ==> t@.columns[i as int].name != (#[trigger] t@.columns[k]).name,
            decreases n - j,
        {
            proof {
                assert(t@.columns[j as int] == t.columns@[j as int]@);
            }
            if str_eq(t.columns[i].name.as_str(), t.columns[j].name.as_str()) {
                return false;
            }
            j = j + 1;
        }
        i = i + 1;
    }
    let mut u: usize = 0;
    while u < t.uniques.len()
        invariant
            u <= t.uniques@.len(),
            forall|a: int, b: int|
                0 <= a < u && 0 <= b < t@.uniques[a].len() ==> spec_is_ident(
                    #[trigger] t@.uniques[a][b],
                ),
            forall|k: int| 0 <= k < t@.columns.len() ==> spec_col_wf(#[trigger] t@.columns[k]),
            forall|a: int, b: int|
                0 <= a < b < t@.columns.len() ==> t@.columns[a].name != t@.columns[b].name,
        decreases t.uniques@.len() - u,
    {
        let cols = &t.uniques[u].columns;
        let mut b: usize = 0;
        while b < cols.len()
            invariant
                b <= cols@.len(),
                cols@ == t.uniques@[u as int].columns@,
                u < t.uniques@.len(),
                forall|k: int| 0 <= k < b ==> spec_is_ident(#[trigger] t@.uniques[u as int][k]),
            decreases cols@.len() - b,
        {
            proof {
                assert(t@.uniques[u as int] == t.uniques@[u as int]@);
                assert(t@.uniques[u as int][b as int] == cols@[b as int]@);
            }
            if !check_ident(cols[b].as_str()) {
                return false;
            }
            b = b + 1;
        }
        proof {
            assert(t@.uniques[u as int] == t.uniques@[u as int]@);
            assert(t@.uniques[u as int].len() == cols@.len());
        }
        u = u + 1;
    }
    true
}

/// Check a whole schema declaration's well-formedness.
#[verifier::loop_isolation(false)]
pub fn schema_wf_check(s: &SchemaDef) -> (r: bool)
    ensures
        r == spec_schema_wf(s@),
{
    let n = s.tables.len();
    let mut i: usize = 0;
    while i < n
        invariant
            i <= n,
            forall|k: int|
                0 <= k < i ==> spec_is_ident((#[trigger] s@[k]).0) && spec_table_wf(s@[k].1),
            forall|a: int, b: int|
                0 <= a < i && a < b < n ==> (#[trigger] s@[a]).0 != (#[trigger] s@[b]).0,
        decreases n - i,
    {
        proof {
            assert(s@[i as int] == (s.tables@[i as int].0@, s.tables@[i as int].1@));
        }
        if !check_ident(s.tables[i].0.as_str()) {
            return false;
        }
        if !table_wf_check(&s.tables[i].1) {
            return false;
        }
        let mut j: usize = i + 1;
        while j < n
            invariant
                i < j <= n,
                forall|k: int| i < k < j ==> s@[i as int].0 != (#[trigger] s@[k]).0,
            decreases n - j,
        {
            proof {
                assert(s@[j as int] == (s.tables@[j as int].0@, s.tables@[j as int].1@));
            }
            if str_eq(s.tables[i].0.as_str(), s.tables[j].0.as_str()) {
                return false;
            }
            j = j + 1;
        }
        i = i + 1;
    }
    true
}

impl TypBuilder {
    /// The collected table declaration.
    pub fn finish(self) -> (r: TableDef)
        ensures
            r@ == self@,
    {
        self.ast
    }
}

} // verus!
