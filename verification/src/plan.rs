//! The relational AST: select plans, joined sources and the join cache.
//!
//! A [`Rows`] value is the builder for one select plan: an ordered sequence
//! of joined sources (physical tables or nested correlated sub-plans), a
//! filter conjunction, grouping keys, aggregate projections and sort keys.
//! Every source gets a fresh alias from the statement's scope, so the
//! aliases of a well-formed plan are pairwise distinct.  A per-plan memo
//! (the join cache) ensures a foreign-key path is joined at most once even
//! when dereferenced many times.

use vstd::prelude::*;
use crate::alias::{Field, FieldAlias, FieldAliasV, FieldV, MyAlias, Scope, field_alias_eq, MAX_ALIAS};
use crate::expr::{
    aliases_allowed, expr_names_ok, spec_aliases_allowed, spec_expr_aliases, spec_expr_names_wf,
    spec_scope_ok, BaseTyp, Expr, Typ, TypV, BaseTypV, Typed,
};
use crate::render::{check_ident, spec_is_ident};
use crate::schema::{
    columns_dup, has_col, spec_col_wf, spec_has_col, spec_table_wf, str_eq, ColTyp, Column,
    ColumnV, TableDef,
};
use crate::Error;

verus! {

/// One joined source of a plan: a physical table under a fresh alias, or
/// a nested correlated sub-plan under a fresh alias.  A nested plan's
/// correlation keys are grouped inside the nested plan and equated with
/// the enclosing expressions in `on`, so every enclosing row keeps exactly
/// one (possibly absent) aggregate row.
pub enum Source {
    Table { name: String, alias: MyAlias },
    Nested { alias: MyAlias, plan: Box<Plan>, on: Vec<(MyAlias, Expr)> },
}

/// The pure relational AST of one query.
pub struct Plan {
    pub sources: Vec<Source>,
    pub filters: Vec<Expr>,
    pub group: Vec<(MyAlias, Expr)>,
    pub aggr: Vec<(MyAlias, Expr)>,
    pub sort: Vec<(MyAlias, Expr)>,
}

/// The alias a source is joined under.
pub open spec fn spec_src_alias(s: Source) -> u64 {
    match s {
        Source::Table { alias, .. } => alias.spec_id(),
        Source::Nested { alias, .. } => alias.spec_id(),
    }
}

/// All aliases introduced by a source, including those of a nested plan.
pub open spec fn spec_src_aliases(s: Source) -> Seq<u64>
    decreases s,
{
    match s {
        Source::Table { alias, .. } => seq![alias.spec_id()],
        Source::Nested { alias, plan, .. } => seq![alias.spec_id()] + spec_plan_aliases(*plan),
    }
}

/// All aliases introduced by a sequence of sources.
pub open spec fn spec_srcs_aliases(ss: Seq<Source>) -> Seq<u64>
    decreases ss,
{
    if ss.len() == 0 {
        Seq::empty()
    } else {
        spec_srcs_aliases(ss.drop_last()) + spec_src_aliases(ss.last())
    }
}

/// The aliases of keyed projections (grouping keys, aggregates, sorts).
pub open spec fn spec_keyed_aliases(v: Seq<(MyAlias, Expr)>) -> Seq<u64> {
    v.map_values(|p: (MyAlias, Expr)| p.0.spec_id())
}

/// Every alias introduced anywhere in a plan, nested plans included.
pub open spec fn spec_plan_aliases(p: Plan) -> Seq<u64>
    decreases p,
{
    spec_srcs_aliases(p.sources@) + spec_keyed_aliases(p.group@) + spec_keyed_aliases(p.aggr@)
        + spec_keyed_aliases(p.sort@)
}

/// The aliases of the top-level sources of a plan: the only aliases its
/// own expressions may reference besides those of enclosing plans.
pub open spec fn spec_top_aliases(p: Plan) -> Seq<u64> {
    p.sources@.map_values(|s: Source| spec_src_alias(s))
}

/// All values of `s` lie in `[lo, hi)`.
pub open spec fn spec_in_range(s: Seq<u64>, lo: u64, hi: u64) -> bool {
    forall|i: int| 0 <= i < s.len() ==> lo <= #[trigger] s[i] < hi
}

/// The values of `s` are pairwise distinct.
pub open spec fn spec_distinct(s: Seq<u64>) -> bool {
    forall|i: int, j: int| 0 <= i < j < s.len() ==> s[i] != s[j]
}

/// Every table name and physical column name in the plan is a valid
/// identifier.
pub open spec fn spec_plan_names_wf(p: Plan) -> bool
    decreases p,
{
    &&& forall|i: int| 0 <= i < p.sources@.len() ==> spec_src_names_wf(#[trigger] p.sources@[i])
    &&& forall|i: int| 0 <= i < p.filters@.len() ==> spec_expr_names_wf(#[trigger] p.filters@[i])
    &&& forall|i: int| 0 <= i < p.group@.len() ==> spec_expr_names_wf((#[trigger] p.group@[i]).1)
    &&& forall|i: int| 0 <= i < p.aggr@.len() ==> spec_expr_names_wf((#[trigger] p.aggr@[i]).1)
    &&& forall|i: int| 0 <= i < p.sort@.len() ==> spec_expr_names_wf((#[trigger] p.sort@[i]).1)
}

/// Name well-formedness of one source.
pub open spec fn spec_src_names_wf(s: Source) -> bool
    decreases s,
{
    match s {
        Source::Table { name, .. } => spec_is_ident(name@),
        Source::Nested { plan, on, .. } => spec_plan_names_wf(*plan) && (forall|i: int|
            0 <= i < on@.len() ==> spec_expr_names_wf((#[trigger] on@[i]).1)),
    }
}

/// The scoping invariant of the data model: every alias used inside the
/// filters, grouping keys, aggregates and sorts of a plan was produced by
/// a source of the same plan or of an enclosing plan, and nested plans are
/// scoped with respect to their enclosing sources.  Correlation flows only
/// outward to inward.
pub open spec fn spec_plan_scoped(p: Plan, outer: Set<u64>) -> bool
    decreases p,
{
    let allowed = outer.union(spec_top_aliases(p).to_set());
    &&& forall|i: int|
        0 <= i < p.filters@.len() ==> spec_expr_aliases(#[trigger] p.filters@[i]).subset_of(allowed)
    &&& forall|i: int|
        0 <= i < p.group@.len() ==> spec_expr_aliases((#[trigger] p.group@[i]).1).subset_of(allowed)
    &&& forall|i: int|
        0 <= i < p.aggr@.len() ==> spec_expr_aliases((#[trigger] p.aggr@[i]).1).subset_of(allowed)
    &&& forall|i: int|
        0 <= i < p.sort@.len() ==> spec_expr_aliases((#[trigger] p.sort@[i]).1).subset_of(allowed)
    &&& forall|i: int| 0 <= i < p.sources@.len() ==> spec_src_scoped(#[trigger] p.sources@[i], allowed)
}

/// Scoping of one source: a nested plan may reference the given allowed
/// aliases besides its own.
pub open spec fn spec_src_scoped(s: Source, allowed: Set<u64>) -> bool
    decreases s,
{
    match s {
        Source::Table { .. } => true,
        Source::Nested { plan, on, .. } => spec_plan_scoped(*plan, allowed) && (forall|i: int|
            0 <= i < on@.len() ==> spec_expr_aliases((#[trigger] on@[i]).1).subset_of(allowed)),
    }
}

/// A typed accessor for one joined table: the fresh alias the table was
/// joined under, plus its declared columns, so that each column can be
/// turned into a typed expression node.
pub struct Db {
    pub(crate) table: String,
    pub(crate) alias: MyAlias,
    pub(crate) stmt: u64,
    pub(crate) cols: Vec<Column>,
}

/// The semantic type of a column expression: a foreign-key column is typed
/// as a reference to the target table's rows.
pub open spec fn spec_col_typ(c: ColumnV) -> TypV {
    TypV {
        base: match c.fk {
            Option::Some((t, _)) => BaseTypV::RowId(t),
            Option::None => match c.typ {
                ColTyp::Int => BaseTypV::Int,
                ColTyp::Text => BaseTypV::Text,
                ColTyp::Real => BaseTypV::Real,
            },
        },
        nullable: c.nullable,
    }
}

/// The first column of `cols` named `n`.
pub open spec fn spec_find_col(cols: Seq<ColumnV>, n: Seq<char>) -> ColumnV
    decreases cols.len(),
{
    if cols.len() == 0 {
        arbitrary()
    } else if cols[0].name == n {
        cols[0]
    } else {
        spec_find_col(cols.drop_first(), n)
    }
}

impl Db {
    /// The alias of the joined table, for specifications.
    pub closed spec fn spec_alias(self) -> u64 {
        self.alias.spec_id()
    }

    /// The numeric alias this table was joined under.
    pub fn alias_id(&self) -> (r: u64)
        ensures
            r == self.spec_alias(),
    {
        self.alias.id()
    }

    /// The statement token, for specifications.
    pub closed spec fn spec_stmt(self) -> u64 {
        self.stmt
    }

    /// The joined table's name, for specifications.
    pub closed spec fn spec_table(self) -> Seq<char> {
        self.table@
    }

    /// The declared columns, for specifications.
    pub closed spec fn spec_cols(self) -> Seq<ColumnV> {
        self.cols@.map_values(|c: Column| c@)
    }

    /// Validity: the table name is an identifier and the columns are well
    /// formed.
    pub open spec fn wf(self) -> bool {
        &&& spec_is_ident(self.spec_table())
        &&& forall|i: int| 0 <= i < self.spec_cols().len() ==> spec_col_wf(#[trigger] self.spec_cols()[i])
    }

    /// The typed expression for this row's identity column.
    pub fn id(&self) -> (r: Typed)
        requires
            self.wf(),
        ensures
            r.spec_expr() matches Expr::Col(f) && f@ == (FieldAliasV {
                table: self.spec_alias(),
                col: FieldV::Str("id"@),
            }),
            r.spec_typ()@ == (TypV { base: BaseTypV::RowId(self.spec_table()), nullable: false }),
            r.spec_stmt() == Option::Some(self.spec_stmt()),
            spec_expr_names_wf(r.spec_expr()),
    {
        proof {
            reveal_strlit("id");
        }
        let r = Typed::col(
            self.alias,
            Field::Str(String::from_str("id")),
            Typ { base: BaseTyp::RowId(self.table.clone()), nullable: false },
            self.stmt,
        );
        proof {
            assert("id"@ =~= seq!['i', 'd']);
            assert(spec_is_ident("id"@));
        }
        r
    }

    /// The typed expression for the column named `name`; rejected exactly
    /// when no such column was declared.
    pub fn col(&self, name: &str) -> (r: Result<Typed, Error>)
        requires
            self.wf(),
        ensures
            r is Ok <==> spec_has_col(self.spec_cols(), name@),
            r matches Ok(t) ==> {
                let c = spec_find_col(self.spec_cols(), name@);
                &&& t.spec_expr() matches Expr::Col(f) && f@ == (FieldAliasV {
                    table: self.spec_alias(),
                    col: FieldV::Str(name@),
                })
                &&& t.spec_typ()@ == spec_col_typ(c)
                &&& t.spec_stmt() == Option::Some(self.spec_stmt())
                &&& spec_expr_names_wf(t.spec_expr())
            },
    {
        let ghost cols = self.spec_cols();
        let mut i: usize = 0;
        while i < self.cols.len()
            invariant
                i <= self.cols@.len(),
                cols == self.spec_cols(),
                self.wf(),
                forall|j: int| 0 <= j < i ==> (#[trigger] cols[j]).name != name@,
            decreases self.cols@.len() - i,
        {
            proof {
                assert(cols[i as int] == self.cols@[i as int]@);
            }
            if str_eq(self.cols[i].name.as_str(), name) {
                let c = &self.cols[i];
                proof {
                    lemma_find_col(cols, name@, i as int);
                    assert(spec_has_col(cols, name@));
                }
                let typ = match &c.fk {
                    Some((t, _)) => Typ { base: BaseTyp::RowId(t.clone()), nullable: c.nullable },
                    None => Typ {
                        base: match c.typ {
                            ColTyp::Int => BaseTyp::Int,
                            ColTyp::Text => BaseTyp::Text,
                            ColTyp::Real => BaseTyp::Real,
                        },
                        nullable: c.nullable,
                    },
                };
                return Ok(
                    Typed::col(self.alias, Field::Str(String::from_str(name)), typ, self.stmt),
                );
            }
            i = i + 1;
        }
        proof {
            assert(forall|j: int| 0 <= j < cols.len() ==> (#[trigger] cols[j]).name != name@);
        }
        Err(Error::UnknownColumn)
    }
}

/// The first matching column found at index `at` is the one
/// `spec_find_col` denotes, provided no earlier column matches.
proof fn lemma_find_col(cols: Seq<ColumnV>, n: Seq<char>, at: int)
    requires
        0 <= at < cols.len(),
        cols[at].name == n,
        forall|j: int| 0 <= j < at ==> (#[trigger] cols[j]).name != n,
    ensures
        spec_find_col(cols, n) == cols[at],
    decreases at,
{
    if at == 0 {
    } else {
        lemma_find_col(cols.drop_first(), n, at - 1);
        assert(cols.drop_first()[at - 1] == cols[at]);
    }
}

/// The view of the join cache: resolved foreign-key fields with the alias
/// of the table source each one was joined under.
pub open spec fn spec_memo_view(m: Seq<(FieldAlias, MyAlias)>) -> Seq<(FieldAliasV, u64)> {
    m.map_values(|p: (FieldAlias, MyAlias)| (p.0@, p.1.spec_id()))
}

/// Look a field up in the join cache: the alias of the first entry for the
/// field, if any.
pub open spec fn spec_memo_lookup(m: Seq<(FieldAliasV, u64)>, k: FieldAliasV) -> Option<u64>
    decreases m.len(),
{
    if m.len() == 0 {
        Option::None
    } else if m[0].0 == k {
        Option::Some(m[0].1)
    } else {
        spec_memo_lookup(m.drop_first(), k)
    }
}

/// The join-cache model of a plan under construction: how many sources it
/// has, which foreign-key fields are memoized, and the next fresh alias.
pub ghost struct CacheModel {
    pub joins: nat,
    pub memo: Seq<(FieldAliasV, u64)>,
    pub next: int,
}

/// One resolution step on the join-cache model: a memoized field is
/// answered from the cache and changes nothing; a new field adds exactly
/// one join and one memo entry.
pub open spec fn spec_resolve(m: CacheModel, k: FieldAliasV) -> CacheModel {
    match spec_memo_lookup(m.memo, k) {
        Option::Some(_) => m,
        Option::None => CacheModel {
            joins: m.joins + 1,
            memo: m.memo.push((k, m.next as u64)),
            next: m.next + 1,
        },
    }
}

/// Looking up `k` after pushing an entry for `k` always succeeds, and an
/// earlier entry wins.
pub proof fn lemma_memo_lookup_push(m: Seq<(FieldAliasV, u64)>, k: FieldAliasV, a: u64)
    ensures
        spec_memo_lookup(m.push((k, a)), k) == (match spec_memo_lookup(m, k) {
            Option::Some(x) => Option::<u64>::Some(x),
            Option::None => Option::<u64>::Some(a),
        }),
    decreases m.len(),
{
    if m.len() == 0 {
        assert(m.push((k, a))[0] == (k, a));
    } else {
        if m[0].0 == k {
            assert(m.push((k, a))[0] == m[0]);
        } else {
            assert(m.push((k, a)).drop_first() =~= m.drop_first().push((k, a)));
            lemma_memo_lookup_push(m.drop_first(), k, a);
        }
    }
}

/// Law: resolving the same foreign-key field any number of times within
/// one plan adds exactly one join source.  The first resolution of a field
/// adds one join and memoizes the field; every further resolution of the
/// same field finds the memo entry and leaves the plan unchanged, so the
/// step is idempotent.
pub proof fn lemma_resolve_idempotent(m: CacheModel, k: FieldAliasV)
    ensures
        spec_resolve(spec_resolve(m, k), k) == spec_resolve(m, k),
        spec_memo_lookup(m.memo, k) is None ==> spec_resolve(m, k).joins == m.joins + 1,
        spec_memo_lookup(m.memo, k) is Some ==> spec_resolve(m, k) == m,
{
    match spec_memo_lookup(m.memo, k) {
        Option::Some(_) => {},
        Option::None => {
            lemma_memo_lookup_push(m.memo, k, m.next as u64);
        },
    }
}

/// Appending a source appends its aliases.
proof fn lemma_srcs_aliases_push(ss: Seq<Source>, s: Source)
    ensures
        spec_srcs_aliases(ss.push(s)) == spec_srcs_aliases(ss) + spec_src_aliases(s),
{
    assert(ss.push(s).drop_last() =~= ss);
    assert(ss.push(s).last() == s);
}

/// Appending a keyed projection appends its alias.
proof fn lemma_keyed_push(v: Seq<(MyAlias, Expr)>, a: MyAlias, e: Expr)
    ensures
        spec_keyed_aliases(v.push((a, e))) == spec_keyed_aliases(v).push(a.spec_id()),
{
    assert(spec_keyed_aliases(v.push((a, e))) =~= spec_keyed_aliases(v).push(a.spec_id()));
}

/// Splicing a block of fresh aliases into the middle of a distinct,
/// bounded alias sequence keeps it distinct; the bound grows to cover the
/// new block.
proof fn lemma_insert_mid(x: Seq<u64>, m: Seq<u64>, y: Seq<u64>, lo: u64, hi: u64, hi2: u64)
    requires
        spec_distinct(x + y),
        spec_in_range(x + y, lo, hi),
        spec_distinct(m),
        spec_in_range(m, hi, hi2),
        lo <= hi <= hi2,
    ensures
        spec_distinct(x + m + y),
        spec_in_range(x + m + y, lo, hi2),
{
    let whole = x + m + y;
    let base = x + y;
    assert forall|i: int| 0 <= i < whole.len() implies lo <= #[trigger] whole[i] < hi2 by {
        if i < x.len() {
            assert(whole[i] == x[i] && x[i] == base[i]);
        } else if i < x.len() + m.len() {
            assert(whole[i] == m[i - x.len()]);
        } else {
            assert(whole[i] == y[i - x.len() - m.len()]);
            assert(y[i - x.len() - m.len()] == base[i - m.len()]);
        }
    };
    assert forall|i: int, j: int| 0 <= i < j < whole.len() implies whole[i] != whole[j] by {
        let xi: u64 = if i < x.len() {
            let v = x[i];
            assert(whole[i] == v && base[i] == v);
            v
        } else if i < x.len() + m.len() {
            let v = m[i - x.len()];
            assert(whole[i] == v);
            v
        } else {
            let v = y[i - x.len() - m.len()];
            assert(whole[i] == v && base[i - m.len()] == v);
            v
        };
        let xj: u64 = if j < x.len() {
            let v = x[j];
            assert(whole[j] == v && base[j] == v);
            v
        } else if j < x.len() + m.len() {
            let v = m[j - x.len()];
            assert(whole[j] == v);
            v
        } else {
            let v = y[j - x.len() - m.len()];
            assert(whole[j] == v && base[j - m.len()] == v);
            v
        };
        let i_in_m = x.len() <= i < x.len() + m.len();
        let j_in_m = x.len() <= j < x.len() + m.len();
        if i_in_m && j_in_m {
            assert(m[i - x.len()] != m[j - x.len()]);
        } else if i_in_m || j_in_m {
            assert(whole[i] != whole[j]);
        } else {
            let bi: int = if i < x.len() { i } else { i - m.len() };
            let bj: int = if j < x.len() { j } else { j - m.len() };
            assert(base[bi] == xi && base[bj] == xj && bi < bj);
        }
    };
}

/// Scoping is monotone in the set of enclosing aliases.
proof fn lemma_scoped_monotone(p: Plan, o1: Set<u64>, o2: Set<u64>)
    requires
        spec_plan_scoped(p, o1),
        o1.subset_of(o2),
    ensures
        spec_plan_scoped(p, o2),
    decreases p,
{
    let a1 = o1.union(spec_top_aliases(p).to_set());
    let a2 = o2.union(spec_top_aliases(p).to_set());
    assert(a1.subset_of(a2));
    assert forall|i: int| 0 <= i < p.sources@.len() implies spec_src_scoped(
        #[trigger] p.sources@[i],
        a2,
    ) by {
        assert(spec_src_scoped(p.sources@[i], a1));
        match p.sources@[i] {
            Source::Nested { plan, on, .. } => {
                lemma_scoped_monotone(*plan, a1, a2);
                assert forall|k: int| 0 <= k < on@.len() implies spec_expr_aliases(
                    (#[trigger] on@[k]).1,
                ).subset_of(a2) by {
                    assert(spec_expr_aliases(on@[k].1).subset_of(a1));
                };
            },
            Source::Table { .. } => {},
        }
    };
}

/// The builder of one select plan: the statement scope, the plan under
/// construction, the join cache, and the aliases of enclosing plans that
/// its expressions may reference.
pub struct Rows {
    pub(crate) stmt: u64,
    pub(crate) scope: Scope,
    pub(crate) plan: Plan,
    pub(crate) memo: Vec<(FieldAlias, MyAlias)>,
    pub(crate) outer: Vec<u64>,
    pub(crate) lo: Ghost<u64>,
}

impl Rows {
    /// The statement token, for specifications.
    pub closed spec fn spec_stmt(self) -> u64 {
        self.stmt
    }

    /// The next fresh alias, for specifications.
    pub closed spec fn spec_next(self) -> u64 {
        self.scope.spec_next()
    }

    /// The plan under construction, for specifications.
    pub closed spec fn spec_plan(self) -> Plan {
        self.plan
    }

    /// The joined sources, for specifications.
    pub closed spec fn spec_sources(self) -> Seq<Source> {
        self.plan.sources@
    }

    /// The filter conjunction, for specifications.
    pub closed spec fn spec_filters(self) -> Seq<Expr> {
        self.plan.filters@
    }

    /// The grouping keys, for specifications.
    pub closed spec fn spec_group(self) -> Seq<(MyAlias, Expr)> {
        self.plan.group@
    }

    /// The aggregate projections, for specifications.
    pub closed spec fn spec_aggr(self) -> Seq<(MyAlias, Expr)> {
        self.plan.aggr@
    }

    /// The sort keys, for specifications.
    pub closed spec fn spec_sort(self) -> Seq<(MyAlias, Expr)> {
        self.plan.sort@
    }

    /// The join cache, for specifications.
    pub closed spec fn spec_memo(self) -> Seq<(FieldAliasV, u64)> {
        spec_memo_view(self.memo@)
    }

    /// The enclosing aliases this plan may reference, for specifications.
    pub closed spec fn spec_outer(self) -> Seq<u64> {
        self.outer@
    }

    /// The lower bound of this plan's own aliases, for specifications.
    pub closed spec fn spec_lo(self) -> u64 {
        self.lo@
    }

    /// The statement token this plan was built under.
    pub fn stmt_token(&self) -> (r: u64)
        ensures
            r == self.spec_stmt(),
    {
        self.stmt
    }

    /// How many sources the plan has joined so far.
    pub fn source_count(&self) -> (r: usize)
        ensures
            r == self.spec_sources().len(),
    {
        self.plan.sources.len()
    }

    /// How many filters the plan holds so far.
    pub fn filter_count(&self) -> (r: usize)
        ensures
            r == self.spec_filters().len(),
    {
        self.plan.filters.len()
    }

    /// The plan, for the compiler.
    pub fn plan_ref(&self) -> (r: &Plan)
        ensures
            *r == self.spec_plan(),
    {
        &self.plan
    }

    /// The join-cache model of this builder.
    pub open spec fn spec_cache(self) -> CacheModel {
        CacheModel {
            joins: self.spec_sources().len() as nat,
            memo: self.spec_memo(),
            next: self.spec_next() as int,
        }
    }

    /// Well-formedness: the scope belongs to this statement; every alias of
    /// the plan is a fresh one of this scope, below the next to be issued
    /// and pairwise distinct; enclosing aliases lie below this plan's own;
    /// all names are valid identifiers; every expression references only
    /// aliases of this plan's sources or of enclosing plans; and every
    /// memoized field points at a source of this plan.
    pub closed spec fn inv(self) -> bool {
        &&& self.scope.spec_stmt() == self.stmt
        &&& self.lo@ <= self.scope.spec_next()
        &&& spec_in_range(spec_plan_aliases(self.plan), self.lo@, self.scope.spec_next())
        &&& spec_distinct(spec_plan_aliases(self.plan))
        &&& forall|i: int| 0 <= i < self.outer@.len() ==> #[trigger] self.outer@[i] < self.lo@
        &&& spec_plan_names_wf(self.plan)
        &&& spec_plan_scoped(self.plan, self.outer@.to_set())
        &&& forall|i: int|
            0 <= i < self.spec_memo().len() ==> spec_top_aliases(self.plan).to_set().contains(
                (#[trigger] self.spec_memo()[i]).1,
            )
    }

    /// A fresh, empty plan for one top-level statement.  Plans that a
    /// store will run take their token from that store's handle, the sole
    /// issuer for its statements; building a plan directly is for
    /// standalone construction and compilation.
    pub fn new(stmt: u64) -> (r: Rows)
        ensures
            r.inv(),
            r.spec_stmt() == stmt,
            r.spec_next() == 0,
            r.spec_sources().len() == 0,
            r.spec_filters().len() == 0,
            r.spec_group().len() == 0,
            r.spec_aggr().len() == 0,
            r.spec_sort().len() == 0,
            r.spec_memo().len() == 0,
            r.spec_outer().len() == 0,
    {
        let r = Rows {
            stmt,
            scope: Scope::new(stmt),
            plan: Plan {
                sources: Vec::new(),
                filters: Vec::new(),
                group: Vec::new(),
                aggr: Vec::new(),
                sort: Vec::new(),
            },
            memo: Vec::new(),
            outer: Vec::new(),
            lo: Ghost(0),
        };
        proof {
            assert(spec_plan_aliases(r.plan) =~= Seq::<u64>::empty());
            assert(spec_top_aliases(r.plan) =~= Seq::<u64>::empty());
            assert(spec_memo_view(r.memo@) =~= Seq::<(FieldAliasV, u64)>::empty());
        }
        r
    }

    /// The aliases of this plan's own sources.
    fn top_alias_vec(&self) -> (r: Vec<u64>)
        ensures
            r@ == spec_top_aliases(self.spec_plan()),
    {
        let mut out: Vec<u64> = Vec::new();
        let mut i: usize = 0;
        while i < self.plan.sources.len()
            invariant
                i <= self.plan.sources@.len(),
                out@.len() == i,
                forall|j: int|
                    0 <= j < i ==> out@[j] == spec_src_alias(#[trigger] self.plan.sources@[j]),
            decreases self.plan.sources@.len() - i,
        {
            let a = match &self.plan.sources[i] {
                Source::Table { alias, .. } => *alias,
                Source::Nested { alias, .. } => *alias,
            };
            out.push(a.id());
            i = i + 1;
        }
        proof {
            assert(out@ =~= spec_top_aliases(self.plan));
        }
        out
    }

    /// The aliases an expression of this plan may reference: those of
    /// enclosing plans followed by this plan's own sources.
    fn allowed_vec(&self) -> (r: Vec<u64>)
        ensures
            r@ == self.spec_outer() + spec_top_aliases(self.spec_plan()),
    {
        let mut out: Vec<u64> = Vec::new();
        let mut i: usize = 0;
        while i < self.outer.len()
            invariant
                i <= self.outer@.len(),
                out@ =~= self.outer@.take(i as int),
            decreases self.outer@.len() - i,
        {
            out.push(self.outer[i]);
            i = i + 1;
        }
        proof {
            assert(self.outer@.take(self.outer@.len() as int) =~= self.outer@);
        }
        let tops = self.top_alias_vec();
        let mut i: usize = 0;
        while i < tops.len()
            invariant
                i <= tops@.len(),
                tops@ == spec_top_aliases(self.spec_plan()),
                out@ =~= self.outer@ + tops@.take(i as int),
            decreases tops@.len() - i,
        {
            out.push(tops[i]);
            i = i + 1;
        }
        proof {
            assert(tops@.take(tops@.len() as int) =~= tops@);
            assert(out@ =~= self.spec_outer() + spec_top_aliases(self.spec_plan()));
        }
        out
    }

    /// Join a physical table into the plan under a fresh alias, returning
    /// the typed accessor for its row.  Fails only when the statement
    /// scope has run out of aliases.
    pub fn join_table(&mut self, name: &str, def: &TableDef) -> (r: Result<Db, Error>)
        requires
            old(self).inv(),
            spec_is_ident(name@),
            spec_table_wf(def@),
        ensures
            final(self).inv(),
            final(self).spec_stmt() == old(self).spec_stmt(),
            final(self).spec_outer() == old(self).spec_outer(),
            final(self).spec_lo() == old(self).spec_lo(),
            final(self).spec_filters() == old(self).spec_filters(),
            final(self).spec_group() == old(self).spec_group(),
            final(self).spec_aggr() == old(self).spec_aggr(),
            final(self).spec_sort() == old(self).spec_sort(),
            final(self).spec_memo() == old(self).spec_memo(),
            r is Ok <==> old(self).spec_next() < MAX_ALIAS,
            r is Err ==> *final(self) == *old(self) && r == Result::<Db, Error>::Err(
                Error::ScopeExhausted,
            ),
            r matches Ok(db) ==> {
                &&& db.wf()
                &&& db.spec_stmt() == old(self).spec_stmt()
                &&& db.spec_table() == name@
                &&& db.spec_cols() == def@.columns
                &&& db.spec_alias() == old(self).spec_next()
                &&& final(self).spec_next() == old(self).spec_next() + 1
                &&& final(self).spec_sources().len() == old(self).spec_sources().len() + 1
                &&& final(self).spec_sources().take(old(self).spec_sources().len() as int) == old(self).spec_sources()
                &&& (final(self).spec_sources().last() matches Source::Table { name: n, alias: a }
                    && n@ == name@ && a.spec_id() == old(self).spec_next())
                &&& spec_top_aliases(final(self).spec_plan()) == spec_top_aliases(
                    old(self).spec_plan(),
                ).push(old(self).spec_next())
            },
    {
        let a = match MyAlias::new(&mut self.scope) {
            Some(a) => a,
            None => {
                return Err(Error::ScopeExhausted);
            },
        };
        let src = Source::Table { name: String::from_str(name), alias: a };
        proof {
            lemma_srcs_aliases_push(self.plan.sources@, src);
        }
        self.plan.sources.push(src);
        let db = Db {
            table: String::from_str(name),
            alias: a,
            stmt: self.stmt,
            cols: columns_dup(&def.columns),
        };
        proof {
            let oldp = old(self).plan;
            let newp = self.plan;
            let oldal = spec_plan_aliases(oldp);
            let newal = spec_plan_aliases(newp);
            let x = spec_srcs_aliases(oldp.sources@);
            let k = spec_keyed_aliases(oldp.group@) + spec_keyed_aliases(oldp.aggr@)
                + spec_keyed_aliases(oldp.sort@);
            assert(oldal =~= x + k);
            assert(newal =~= x + seq![a.spec_id()] + k);
            lemma_insert_mid(
                x,
                seq![a.spec_id()],
                k,
                old(self).lo@,
                old(self).scope.spec_next(),
                self.scope.spec_next(),
            );
            assert(spec_top_aliases(newp) =~= spec_top_aliases(oldp).push(a.spec_id()));
            assert forall|i: int| 0 <= i < newp.sources@.len() implies spec_src_names_wf(
                #[trigger] newp.sources@[i],
            ) by {
                if i < newp.sources@.len() - 1 {
                    assert(newp.sources@[i] == oldp.sources@[i]);
                }
            };
            let o1 = self.outer@.to_set().union(spec_top_aliases(oldp).to_set());
            let o2 = self.outer@.to_set().union(spec_top_aliases(newp).to_set());
            assert forall|v: u64| o1.contains(v) implies o2.contains(v) by {
                if spec_top_aliases(oldp).to_set().contains(v) {
                    let j = choose|j: int|
                        0 <= j < spec_top_aliases(oldp).len() && spec_top_aliases(oldp)[j] == v;
                    assert(spec_top_aliases(newp)[j] == v);
                    assert(spec_top_aliases(newp).contains(v));
                }
            };
            assert forall|i: int| 0 <= i < newp.sources@.len() implies spec_src_scoped(
                #[trigger] newp.sources@[i],
                o2,
            ) by {
                if i < newp.sources@.len() - 1 {
                    assert(newp.sources@[i] == oldp.sources@[i]);
                    assert(spec_src_scoped(oldp.sources@[i], o1));
                    match newp.sources@[i] {
                        Source::Nested { plan, on, .. } => {
                            lemma_scoped_monotone(*plan, o1, o2);
                            assert forall|k: int| 0 <= k < on@.len() implies spec_expr_aliases(
                                (#[trigger] on@[k]).1,
                            ).subset_of(o2) by {
                                assert(spec_expr_aliases(on@[k].1).subset_of(o1));
                            };
                        },
                        Source::Table { .. } => {},
                    }
                }
            };
            assert forall|i: int|
                0 <= i < newp.filters@.len() implies spec_expr_aliases(
                #[trigger] newp.filters@[i],
            ).subset_of(o2) by {
                assert(spec_expr_aliases(oldp.filters@[i]).subset_of(o1));
            };
            assert forall|i: int|
                0 <= i < newp.group@.len() implies spec_expr_aliases(
                (#[trigger] newp.group@[i]).1,
            ).subset_of(o2) by {
                assert(spec_expr_aliases((oldp.group@[i]).1).subset_of(o1));
            };
            assert forall|i: int|
                0 <= i < newp.aggr@.len() implies spec_expr_aliases(
                (#[trigger] newp.aggr@[i]).1,
            ).subset_of(o2) by {
                assert(spec_expr_aliases((oldp.aggr@[i]).1).subset_of(o1));
            };
            assert forall|i: int|
                0 <= i < newp.sort@.len() implies spec_expr_aliases(
                (#[trigger] newp.sort@[i]).1,
            ).subset_of(o2) by {
                assert(spec_expr_aliases((oldp.sort@[i]).1).subset_of(o1));
            };
            assert forall|i: int|
                0 <= i < self.spec_memo().len() implies spec_top_aliases(newp).to_set().contains(
                (#[trigger] self.spec_memo()[i]).1,
            ) by {
                assert(self.spec_memo() =~= old(self).spec_memo());
                assert(spec_top_aliases(oldp).to_set().contains(old(self).spec_memo()[i].1));
                let j = choose|j: int|
                    0 <= j < spec_top_aliases(oldp).len() && spec_top_aliases(oldp)[j]
                        == self.spec_memo()[i].1;
                assert(spec_top_aliases(newp)[j] == self.spec_memo()[i].1);
                assert(spec_top_aliases(newp).contains(self.spec_memo()[i].1));
            };
            assert(final(self).spec_sources().take(old(self).spec_sources().len() as int) =~= old(self).spec_sources());
        }
        Ok(db)
    }

    /// Add a boolean filter to the plan's conjunction.  Rejected, before
    /// any SQL is emitted, exactly when the expression is not a
    /// non-nullable boolean, was built for another statement, mentions an
    /// invalid column name, or references an alias that no source of this
    /// plan or of an enclosing plan produced.
    pub fn filter(&mut self, v: Typed) -> (r: Result<(), Error>)
        requires
            old(self).inv(),
        ensures
            final(self).inv(),
            final(self).spec_stmt() == old(self).spec_stmt(),
            final(self).spec_outer() == old(self).spec_outer(),
            final(self).spec_lo() == old(self).spec_lo(),
            final(self).spec_next() == old(self).spec_next(),
            final(self).spec_sources() == old(self).spec_sources(),
            final(self).spec_group() == old(self).spec_group(),
            final(self).spec_aggr() == old(self).spec_aggr(),
            final(self).spec_sort() == old(self).spec_sort(),
            final(self).spec_memo() == old(self).spec_memo(),
            ({
                let e = v.spec_expr();
                let type_ok = v.spec_typ()@ == crate::expr::spec_bool_typ();
                let scope_ok = spec_scope_ok(v.spec_stmt(), old(self).spec_stmt());
                let names_ok = spec_expr_names_wf(e);
                let alias_ok = spec_aliases_allowed(
                    e,
                    old(self).spec_outer() + spec_top_aliases(old(self).spec_plan()),
                );
                &&& r is Ok <==> type_ok && scope_ok && names_ok && alias_ok
                &&& r is Ok ==> final(self).spec_filters() == old(self).spec_filters().push(e)
                &&& r is Err ==> *final(self) == *old(self)
                &&& !type_ok ==> r == Result::<(), Error>::Err(Error::TypeMismatch)
                &&& type_ok && !scope_ok ==> r == Result::<(), Error>::Err(Error::ScopeMismatch)
                &&& type_ok && scope_ok && !names_ok ==> r == Result::<(), Error>::Err(
                    Error::UnknownColumn,
                )
                &&& type_ok && scope_ok && names_ok && !alias_ok ==> r == Result::<(), Error>::Err(
                    Error::AliasOutOfScope,
                )
            }),
    {
        let bool_t = Typ { base: BaseTyp::Bool, nullable: false };
        if !crate::expr::typ_eq(&v.typ(), &bool_t) {
            return Err(Error::TypeMismatch);
        }
        match &v.stmt {
            Some(s) => {
                if *s != self.stmt {
                    return Err(Error::ScopeMismatch);
                }
            },
            None => {},
        }
        if !expr_names_ok(&v.expr) {
            return Err(Error::UnknownColumn);
        }
        let allowed = self.allowed_vec();
        if !aliases_allowed(&v.expr, &allowed) {
            return Err(Error::AliasOutOfScope);
        }
        let ghost oldp = self.plan;
        self.plan.filters.push(v.expr);
        proof {
            let newp = self.plan;
            assert(spec_plan_aliases(newp) =~= spec_plan_aliases(oldp));
            let o = self.outer@.to_set().union(spec_top_aliases(newp).to_set());
            assert forall|i: int|
                0 <= i < newp.filters@.len() implies spec_expr_aliases(
                #[trigger] newp.filters@[i],
            ).subset_of(o) by {
                if i < newp.filters@.len() - 1 {
                    assert(newp.filters@[i] == oldp.filters@[i]);
                } else {
                    assert(spec_aliases_allowed(
                        newp.filters@[i],
                        self.outer@ + spec_top_aliases(oldp),
                    ));
                    assert forall|al: u64|
                        spec_expr_aliases(newp.filters@[i]).contains(al) implies o.contains(al) by {
                        let comb = self.outer@ + spec_top_aliases(oldp);
                        assert(comb.to_set().contains(al));
                        let j = choose|j: int| 0 <= j < comb.len() && comb[j] == al;
                        if j < self.outer@.len() {
                            assert(self.outer@[j] == al);
                            assert(self.outer@.contains(al));
                        } else {
                            assert(spec_top_aliases(oldp)[j - self.outer@.len()] == al);
                            assert(spec_top_aliases(oldp).contains(al));
                        }
                    };
                }
            };
            assert forall|i: int| 0 <= i < newp.filters@.len() implies spec_expr_names_wf(
                #[trigger] newp.filters@[i],
            ) by {
                if i < newp.filters@.len() - 1 {
                    assert(newp.filters@[i] == oldp.filters@[i]);
                }
            };
            assert forall|i: int|
                0 <= i < self.spec_memo().len() implies spec_top_aliases(newp).to_set().contains(
                (#[trigger] self.spec_memo()[i]).1,
            ) by {
                assert(self.spec_memo() =~= old(self).spec_memo());
                assert(spec_top_aliases(oldp).to_set().contains(old(self).spec_memo()[i].1));
                assert(spec_top_aliases(newp) =~= spec_top_aliases(oldp));
            };
        }
        Ok(())
    }
}

/// A well-formed builder's plan has well-formed table and column names.
pub proof fn lemma_rows_names_wf(r: Rows)
    requires
        r.inv(),
    ensures
        spec_plan_names_wf(r.spec_plan()),
{
}

/// Law: within one well-formed plan, every alias — the alias of each
/// Table or nested-plan source, and every generated projection alias,
/// nested plans included — is pairwise distinct from all others, so no
/// two sources of one emitted statement can collide.
pub proof fn lemma_plan_aliases_distinct(r: Rows)
    requires
        r.inv(),
    ensures
        spec_distinct(spec_plan_aliases(r.spec_plan())),
{
}

/// Skipping entries that do not match the key leaves the lookup result
/// unchanged.
proof fn lemma_memo_lookup_skip(m: Seq<(FieldAliasV, u64)>, k: FieldAliasV, i: int)
    requires
        0 <= i <= m.len(),
        forall|j: int| 0 <= j < i ==> (#[trigger] m[j]).0 != k,
    ensures
        spec_memo_lookup(m, k) == spec_memo_lookup(m.skip(i), k),
    decreases i,
{
    if i > 0 {
        assert(m[0].0 != k);
        lemma_memo_lookup_skip(m.drop_first(), k, i - 1);
        assert(m.drop_first().skip(i - 1) =~= m.skip(i));
    } else {
        assert(m.skip(0) =~= m);
    }
}

impl Rows {
    /// Look a resolved foreign-key field up in the join cache.
    fn memo_find(&self, key: &FieldAlias) -> (r: Option<MyAlias>)
        ensures
            match spec_memo_lookup(self.spec_memo(), key@) {
                Option::Some(a) => r matches Some(x) && x.spec_id() == a,
                Option::None => r is None,
            },
    {
        let ghost m = self.spec_memo();
        let mut i: usize = 0;
        while i < self.memo.len()
            invariant
                m == self.spec_memo(),
                i <= self.memo@.len(),
                forall|j: int| 0 <= j < i ==> (#[trigger] m[j]).0 != key@,
            decreases self.memo@.len() - i,
        {
            proof {
                assert(m[i as int] == (self.memo@[i as int].0@, self.memo@[i as int].1.spec_id()));
            }
            if field_alias_eq(&self.memo[i].0, key) {
                proof {
                    lemma_memo_lookup_skip(m, key@, i as int);
                    assert(m.skip(i as int)[0] == m[i as int]);
                }
                return Some(self.memo[i].1);
            }
            i = i + 1;
        }
        proof {
            lemma_memo_lookup_skip(m, key@, m.len() as int);
            assert(m.skip(m.len() as int) =~= Seq::<(FieldAliasV, u64)>::empty());
        }
        None
    }

    /// Dereference a foreign-key column: return the accessor for the
    /// target table's row, joining the target exactly once.  The first
    /// resolution of a field joins the target under a fresh alias,
    /// constrains it to the referenced row and memoizes the field; any
    /// later resolution of the same field answers from the join cache and
    /// leaves the plan unchanged.
    pub fn join_fk(&mut self, db: &Db, col: &str, target: &TableDef) -> (r: Result<Db, Error>)
        requires
            old(self).inv(),
            db.wf(),
            spec_table_wf(target@),
        ensures
            final(self).inv(),
            final(self).spec_stmt() == old(self).spec_stmt(),
            final(self).spec_outer() == old(self).spec_outer(),
            final(self).spec_lo() == old(self).spec_lo(),
            final(self).spec_group() == old(self).spec_group(),
            final(self).spec_aggr() == old(self).spec_aggr(),
            final(self).spec_sort() == old(self).spec_sort(),
            ({
                let key = FieldAliasV { table: db.spec_alias(), col: FieldV::Str(col@) };
                let c = spec_find_col(db.spec_cols(), col@);
                let stmt_ok = db.spec_stmt() == old(self).spec_stmt();
                let col_ok = spec_has_col(db.spec_cols(), col@);
                let fk_ok = col_ok && c.fk is Some;
                let in_scope = (old(self).spec_outer() + spec_top_aliases(
                    old(self).spec_plan(),
                )).to_set().contains(db.spec_alias());
                let cached = spec_memo_lookup(old(self).spec_memo(), key);
                &&& (r is Ok <==> stmt_ok && fk_ok && in_scope && (cached is Some || old(
                    self,
                ).spec_next() < MAX_ALIAS))
                &&& r is Err ==> *final(self) == *old(self)
                &&& !stmt_ok ==> r == Result::<Db, Error>::Err(Error::ScopeMismatch) && *final(self) == *old(self)
                &&& stmt_ok && !col_ok ==> r == Result::<Db, Error>::Err(Error::UnknownColumn)
                    && *final(self) == *old(self)
                &&& stmt_ok && col_ok && !(c.fk is Some) ==> r == Result::<Db, Error>::Err(
                    Error::NotAForeignKey,
                ) && *final(self) == *old(self)
                &&& stmt_ok && fk_ok && !in_scope ==> r == Result::<Db, Error>::Err(
                    Error::AliasOutOfScope,
                ) && *final(self) == *old(self)
                &&& stmt_ok && fk_ok && in_scope && cached is None && old(self).spec_next()
                    >= MAX_ALIAS ==> r == Result::<Db, Error>::Err(Error::ScopeExhausted) && *final(self) == *old(self)
                &&& r matches Ok(out) ==> {
                    &&& stmt_ok && fk_ok && in_scope
                    &&& final(self).spec_cache() == spec_resolve(old(self).spec_cache(), key)
                    &&& out.wf()
                    &&& out.spec_stmt() == old(self).spec_stmt()
                    &&& out.spec_table() == c.fk->Some_0.0
                    &&& out.spec_cols() == target@.columns
                    &&& (match cached {
                        Option::Some(a) => out.spec_alias() == a && *final(self) == *old(self),
                        Option::None => {
                            &&& out.spec_alias() == old(self).spec_next()
                            &&& final(self).spec_sources().len() == old(self).spec_sources().len() + 1
                            &&& final(self).spec_filters().len() == old(self).spec_filters().len() + 1
                            &&& (final(self).spec_filters().last() matches Expr::Eq(l, rr)
                                && (*l matches Expr::Col(lf) && lf@ == (FieldAliasV {
                                    table: db.spec_alias(),
                                    col: FieldV::Str(col@),
                                })) && (*rr matches Expr::Col(rf) && rf@ == (FieldAliasV {
                                    table: old(self).spec_next(),
                                    col: FieldV::Str(c.fk->Some_0.1),
                                })))
                        },
                    })
                }
            }),
    {
        if db.stmt != self.stmt {
            return Err(Error::ScopeMismatch);
        }
        let ghost cols = db.spec_cols();
        let mut i: usize = 0;
        let mut found: Option<usize> = None;
        while i < db.cols.len() && found.is_none()
            invariant
                cols == db.spec_cols(),
                db.wf(),
                i <= db.cols@.len(),
                found matches Some(f) ==> 0 <= f < db.cols@.len() && cols[f as int].name == col@
                    && (forall|j: int| 0 <= j < f ==> (#[trigger] cols[j]).name != col@),
                found is None ==> forall|j: int| 0 <= j < i ==> (#[trigger] cols[j]).name != col@,
            decreases db.cols@.len() - i + (if found is Some { 0int } else { 1int }),
        {
            proof {
                assert(cols[i as int] == db.cols@[i as int]@);
            }
            if str_eq(db.cols[i].name.as_str(), col) {
                found = Some(i);
            } else {
                i = i + 1;
            }
        }
        let at = match found {
            Some(f) => f,
            None => {
                proof {
                    assert(forall|j: int| 0 <= j < cols.len() ==> (#[trigger] cols[j]).name != col@);
                }
                return Err(Error::UnknownColumn);
            },
        };
        proof {
            lemma_find_col(cols, col@, at as int);
            assert(spec_has_col(cols, col@));
        }
        let c = &db.cols[at];
        proof {
            assert(c@ == cols[at as int]);
        }
        let (fk_table, fk_col) = match &c.fk {
            Some((t, cc)) => (t.clone(), cc.clone()),
            None => {
                return Err(Error::NotAForeignKey);
            },
        };
        let allowed = self.allowed_vec();
        if !crate::expr::contains_u64(&allowed, db.alias.id()) {
            return Err(Error::AliasOutOfScope);
        }
        let key = FieldAlias { table: db.alias, col: Field::Str(String::from_str(col)) };
        if let Some(cached) = self.memo_find(&key) {
            return Ok(
                Db {
                    table: fk_table,
                    alias: cached,
                    stmt: self.stmt,
                    cols: columns_dup(&target.columns),
                },
            );
        }
        let a = match MyAlias::new(&mut self.scope) {
            Some(a) => a,
            None => {
                return Err(Error::ScopeExhausted);
            },
        };
        let src = Source::Table { name: fk_table.clone(), alias: a };
        proof {
            lemma_srcs_aliases_push(self.plan.sources@, src);
        }
        self.plan.sources.push(src);
        let lhs = Expr::Col(FieldAlias { table: db.alias, col: Field::Str(String::from_str(col)) });
        let rhs = Expr::Col(FieldAlias { table: a, col: Field::Str(fk_col.clone()) });
        let join_eq = Expr::Eq(Box::new(lhs), Box::new(rhs));
        self.plan.filters.push(join_eq);
        self.memo.push((key, a));
        let out = Db {
            table: fk_table,
            alias: a,
            stmt: self.stmt,
            cols: columns_dup(&target.columns),
        };
        proof {
            let oldp = old(self).plan;
            let newp = self.plan;
            let oldal = spec_plan_aliases(oldp);
            let x = spec_srcs_aliases(oldp.sources@);
            let k = spec_keyed_aliases(oldp.group@) + spec_keyed_aliases(oldp.aggr@)
                + spec_keyed_aliases(oldp.sort@);
            assert(oldal =~= x + k);
            assert(spec_plan_aliases(newp) =~= x + seq![a.spec_id()] + k);
            lemma_insert_mid(
                x,
                seq![a.spec_id()],
                k,
                old(self).lo@,
                old(self).scope.spec_next(),
                self.scope.spec_next(),
            );
            assert(spec_top_aliases(newp) =~= spec_top_aliases(oldp).push(a.spec_id()));
            assert forall|i2: int| 0 <= i2 < newp.sources@.len() implies spec_src_names_wf(
                #[trigger] newp.sources@[i2],
            ) by {
                if i2 < newp.sources@.len() - 1 {
                    assert(newp.sources@[i2] == oldp.sources@[i2]);
                }
            };
            assert(spec_is_ident(cols[at as int].name));
            assert(col@ == cols[at as int].name);
            assert(fk_col@ == cols[at as int].fk->Some_0.1);
            assert(spec_is_ident(fk_col@));
            assert(spec_expr_names_wf(lhs));
            assert(spec_expr_names_wf(rhs));
            assert(join_eq matches Expr::Eq(l, rr) && *l == lhs && *rr == rhs);
            assert(spec_expr_names_wf(join_eq));
            assert forall|i2: int| 0 <= i2 < newp.filters@.len() implies spec_expr_names_wf(
                #[trigger] newp.filters@[i2],
            ) by {
                if i2 < newp.filters@.len() - 1 {
                    assert(newp.filters@[i2] == oldp.filters@[i2]);
                } else {
                    assert(newp.filters@[i2] == join_eq);
                }
            };
            let o1 = self.outer@.to_set().union(spec_top_aliases(oldp).to_set());
            let o2 = self.outer@.to_set().union(spec_top_aliases(newp).to_set());
            assert forall|v: u64| o1.contains(v) implies o2.contains(v) by {
                if spec_top_aliases(oldp).to_set().contains(v) {
                    let j = choose|j: int|
                        0 <= j < spec_top_aliases(oldp).len() && spec_top_aliases(oldp)[j] == v;
                    assert(spec_top_aliases(newp)[j] == v);
                    assert(spec_top_aliases(newp).contains(v));
                }
            };
            assert(spec_top_aliases(newp).last() == a.spec_id());
            assert(spec_top_aliases(newp).contains(a.spec_id()));
            assert(o2.contains(a.spec_id()));
            assert(spec_expr_aliases(lhs) =~= Set::<u64>::empty().insert(db.alias.spec_id()));
            assert(spec_expr_aliases(rhs) =~= Set::<u64>::empty().insert(a.spec_id()));
            assert(spec_expr_aliases(join_eq) =~= Set::<u64>::empty().insert(
                db.alias.spec_id(),
            ).union(Set::<u64>::empty().insert(a.spec_id())));
            assert forall|v: u64| spec_expr_aliases(join_eq).contains(v) implies o2.contains(
                v,
            ) by {
                if v == db.alias.spec_id() {
                    let comb = self.outer@ + spec_top_aliases(oldp);
                    assert(comb.to_set().contains(v));
                    let j = choose|j: int| 0 <= j < comb.len() && comb[j] == v;
                    if j < self.outer@.len() {
                        assert(self.outer@[j] == v);
                        assert(self.outer@.contains(v));
                    } else {
                        assert(spec_top_aliases(oldp)[j - self.outer@.len()] == v);
                        assert(spec_top_aliases(oldp).contains(v));
                    }
                }
            };
            assert forall|i2: int| 0 <= i2 < newp.sources@.len() implies spec_src_scoped(
                #[trigger] newp.sources@[i2],
                o2,
            ) by {
                if i2 < newp.sources@.len() - 1 {
                    assert(newp.sources@[i2] == oldp.sources@[i2]);
                    assert(spec_src_scoped(oldp.sources@[i2], o1));
                    match newp.sources@[i2] {
                        Source::Nested { plan, on, .. } => {
                            lemma_scoped_monotone(*plan, o1, o2);
                            assert forall|k: int| 0 <= k < on@.len() implies spec_expr_aliases(
                                (#[trigger] on@[k]).1,
                            ).subset_of(o2) by {
                                assert(spec_expr_aliases(on@[k].1).subset_of(o1));
                            };
                        },
                        Source::Table { .. } => {},
                    }
                }
            };
            assert forall|i2: int|
                0 <= i2 < newp.filters@.len() implies spec_expr_aliases(
                #[trigger] newp.filters@[i2],
            ).subset_of(o2) by {
                if i2 < newp.filters@.len() - 1 {
                    assert(spec_expr_aliases(oldp.filters@[i2]).subset_of(o1));
                }
            };
            assert forall|i2: int|
                0 <= i2 < newp.group@.len() implies spec_expr_aliases(
                (#[trigger] newp.group@[i2]).1,
            ).subset_of(o2) by {
                assert(spec_expr_aliases((oldp.group@[i2]).1).subset_of(o1));
            };
            assert forall|i2: int|
                0 <= i2 < newp.aggr@.len() implies spec_expr_aliases(
                (#[trigger] newp.aggr@[i2]).1,
            ).subset_of(o2) by {
                assert(spec_expr_aliases((oldp.aggr@[i2]).1).subset_of(o1));
            };
            assert forall|i2: int|
                0 <= i2 < newp.sort@.len() implies spec_expr_aliases(
                (#[trigger] newp.sort@[i2]).1,
            ).subset_of(o2) by {
                assert(spec_expr_aliases((oldp.sort@[i2]).1).subset_of(o1));
            };
            assert(self.spec_memo() =~= old(self).spec_memo().push((key@, a.spec_id())));
            assert forall|i2: int|
                0 <= i2 < self.spec_memo().len() implies spec_top_aliases(newp).to_set().contains(
                (#[trigger] self.spec_memo()[i2]).1,
            ) by {
                if i2 < self.spec_memo().len() - 1 {
                    assert(self.spec_memo()[i2] == old(self).spec_memo()[i2]);
                    assert(spec_top_aliases(oldp).to_set().contains(old(self).spec_memo()[i2].1));
                    let j = choose|j: int|
                        0 <= j < spec_top_aliases(oldp).len() && spec_top_aliases(oldp)[j] == old(self).spec_memo()[i2].1;
                    assert(spec_top_aliases(newp)[j] == old(self).spec_memo()[i2].1);
                    assert(spec_top_aliases(newp).contains(old(self).spec_memo()[i2].1));
                } else {
                    assert(self.spec_memo()[i2].1 == a.spec_id());
                }
            };
            assert(final(self).spec_cache() =~= spec_resolve(old(self).spec_cache(), key@));
        }
        Ok(out)
    }
}

/// The semantic type of an aggregate projection as seen by the enclosing
/// plan: an integer that is absent for enclosing rows without a matching
/// aggregate row, so callers coalesce it with an outer-compatible default.
pub open spec fn spec_aggr_typ(e: Expr) -> TypV {
    TypV { base: BaseTypV::Int, nullable: true }
}

impl Rows {
    /// Checks shared by every expression inserted into this plan, in
    /// error-precedence order; `Ok` carries no information.
    pub(crate) fn check_expr(&self, v: &Typed, type_ok: bool) -> (r: Result<(), Error>)
        ensures
            ({
                let scope_ok = spec_scope_ok(v.spec_stmt(), self.spec_stmt());
                let names_ok = spec_expr_names_wf(v.spec_expr());
                let alias_ok = spec_aliases_allowed(
                    v.spec_expr(),
                    self.spec_outer() + spec_top_aliases(self.spec_plan()),
                );
                &&& r is Ok <==> type_ok && scope_ok && names_ok && alias_ok
                &&& !type_ok ==> r == Result::<(), Error>::Err(Error::TypeMismatch)
                &&& type_ok && !scope_ok ==> r == Result::<(), Error>::Err(Error::ScopeMismatch)
                &&& type_ok && scope_ok && !names_ok ==> r == Result::<(), Error>::Err(
                    Error::UnknownColumn,
                )
                &&& type_ok && scope_ok && names_ok && !alias_ok ==> r == Result::<(), Error>::Err(
                    Error::AliasOutOfScope,
                )
            }),
    {
        if !type_ok {
            return Err(Error::TypeMismatch);
        }
        match &v.stmt {
            Some(s) => {
                if *s != self.stmt {
                    return Err(Error::ScopeMismatch);
                }
            },
            None => {},
        }
        if !expr_names_ok(&v.expr) {
            return Err(Error::UnknownColumn);
        }
        let allowed = self.allowed_vec();
        if !aliases_allowed(&v.expr, &allowed) {
            return Err(Error::AliasOutOfScope);
        }
        Ok(())
    }
}

/// An expression allowed over a combined alias list is allowed over the
/// union of the two sets.
proof fn lemma_allowed_to_set(e: Expr, outer: Seq<u64>, tops: Seq<u64>)
    requires
        spec_aliases_allowed(e, outer + tops),
    ensures
        spec_expr_aliases(e).subset_of(outer.to_set().union(tops.to_set())),
{
    assert forall|al: u64| spec_expr_aliases(e).contains(al) implies outer.to_set().union(
        tops.to_set(),
    ).contains(al) by {
        let comb = outer + tops;
        assert(comb.to_set().contains(al));
        let j = choose|j: int| 0 <= j < comb.len() && comb[j] == al;
        if j < outer.len() {
            assert(outer[j] == al);
            assert(outer.contains(al));
        } else {
            assert(tops[j - outer.len()] == al);
            assert(tops.contains(al));
        }
    };
}

impl Rows {
    /// Append a keyed projection under a fresh alias to the chosen list.
    /// `slot` picks the list: grouping keys, aggregates or sort keys.
    fn push_keyed(&mut self, e: Expr, slot: u8) -> (r: Result<MyAlias, Error>)
        requires
            old(self).inv(),
            spec_expr_names_wf(e),
            spec_aliases_allowed(
                e,
                old(self).spec_outer() + spec_top_aliases(old(self).spec_plan()),
            ),
            slot == 0 || slot == 1 || slot == 2,
        ensures
            final(self).inv(),
            final(self).spec_stmt() == old(self).spec_stmt(),
            final(self).spec_outer() == old(self).spec_outer(),
            final(self).spec_lo() == old(self).spec_lo(),
            final(self).spec_sources() == old(self).spec_sources(),
            final(self).spec_filters() == old(self).spec_filters(),
            final(self).spec_memo() == old(self).spec_memo(),
            r is Ok <==> old(self).spec_next() < MAX_ALIAS,
            r is Err ==> *final(self) == *old(self) && r == Result::<MyAlias, Error>::Err(
                Error::ScopeExhausted,
            ),
            r matches Ok(a) ==> {
                &&& a.spec_id() == old(self).spec_next()
                &&& final(self).spec_next() == old(self).spec_next() + 1
                &&& (slot == 0 ==> final(self).spec_group() == old(self).spec_group().push((a, e))
                    && final(self).spec_aggr() == old(self).spec_aggr() && final(self).spec_sort()
                    == old(self).spec_sort())
                &&& (slot == 1 ==> final(self).spec_aggr() == old(self).spec_aggr().push((a, e))
                    && final(self).spec_group() == old(self).spec_group() && final(self).spec_sort()
                    == old(self).spec_sort())
                &&& (slot == 2 ==> final(self).spec_sort() == old(self).spec_sort().push((a, e))
                    && final(self).spec_group() == old(self).spec_group() && final(self).spec_aggr()
                    == old(self).spec_aggr())
            },
    {
        let a = match MyAlias::new(&mut self.scope) {
            Some(a) => a,
            None => {
                return Err(Error::ScopeExhausted);
            },
        };
        let ghost ev = e;
        if slot == 0 {
            proof {
                lemma_keyed_push(self.plan.group@, a, ev);
            }
            self.plan.group.push((a, e));
        } else if slot == 1 {
            proof {
                lemma_keyed_push(self.plan.aggr@, a, ev);
            }
            self.plan.aggr.push((a, e));
        } else {
            proof {
                lemma_keyed_push(self.plan.sort@, a, ev);
            }
            self.plan.sort.push((a, e));
        }
        proof {
            let oldp = old(self).plan;
            let newp = self.plan;
            let s = spec_srcs_aliases(oldp.sources@);
            let g = spec_keyed_aliases(oldp.group@);
            let aa = spec_keyed_aliases(oldp.aggr@);
            let o = spec_keyed_aliases(oldp.sort@);
            if slot == 0 {
                assert(spec_plan_aliases(oldp) =~= (s + g) + (aa + o));
                assert(spec_plan_aliases(newp) =~= (s + g) + seq![a.spec_id()] + (aa + o));
                lemma_insert_mid(
                    s + g,
                    seq![a.spec_id()],
                    aa + o,
                    old(self).lo@,
                    old(self).scope.spec_next(),
                    self.scope.spec_next(),
                );
            } else if slot == 1 {
                assert(spec_plan_aliases(oldp) =~= ((s + g) + aa) + o);
                assert(spec_plan_aliases(newp) =~= ((s + g) + aa) + seq![a.spec_id()] + o);
                lemma_insert_mid(
                    (s + g) + aa,
                    seq![a.spec_id()],
                    o,
                    old(self).lo@,
                    old(self).scope.spec_next(),
                    self.scope.spec_next(),
                );
            } else {
                assert(spec_plan_aliases(oldp) =~= (((s + g) + aa) + o) + Seq::<u64>::empty());
                assert(spec_plan_aliases(newp) =~= (((s + g) + aa) + o) + seq![a.spec_id()]
                    + Seq::<u64>::empty());
                lemma_insert_mid(
                    ((s + g) + aa) + o,
                    seq![a.spec_id()],
                    Seq::<u64>::empty(),
                    old(self).lo@,
                    old(self).scope.spec_next(),
                    self.scope.spec_next(),
                );
            }
            assert(spec_top_aliases(newp) =~= spec_top_aliases(oldp));
            let ou = self.outer@.to_set().union(spec_top_aliases(oldp).to_set());
            lemma_allowed_to_set(ev, self.outer@, spec_top_aliases(oldp));
            assert forall|i: int| 0 <= i < newp.group@.len() implies spec_expr_names_wf(
                (#[trigger] newp.group@[i]).1,
            ) && spec_expr_aliases(newp.group@[i].1).subset_of(ou) by {
                if i < oldp.group@.len() {
                    assert(newp.group@[i] == oldp.group@[i]);
                } else {
                    assert(newp.group@[i].1 == ev);
                }
            };
            assert forall|i: int| 0 <= i < newp.aggr@.len() implies spec_expr_names_wf(
                (#[trigger] newp.aggr@[i]).1,
            ) && spec_expr_aliases(newp.aggr@[i].1).subset_of(ou) by {
                if i < oldp.aggr@.len() {
                    assert(newp.aggr@[i] == oldp.aggr@[i]);
                } else {
                    assert(newp.aggr@[i].1 == ev);
                }
            };
            assert forall|i: int| 0 <= i < newp.sort@.len() implies spec_expr_names_wf(
                (#[trigger] newp.sort@[i]).1,
            ) && spec_expr_aliases(newp.sort@[i].1).subset_of(ou) by {
                if i < oldp.sort@.len() {
                    assert(newp.sort@[i] == oldp.sort@[i]);
                } else {
                    assert(newp.sort@[i].1 == ev);
                }
            };
            assert forall|i: int|
                0 <= i < self.spec_memo().len() implies spec_top_aliases(newp).to_set().contains(
                (#[trigger] self.spec_memo()[i]).1,
            ) by {
                assert(self.spec_memo() =~= old(self).spec_memo());
                assert(spec_top_aliases(oldp).to_set().contains(old(self).spec_memo()[i].1));
            };
        }
        Ok(a)
    }

    /// Project `v` as a grouping key: it is projected, grouped on and
    /// ordered ascending, so that together with sort keys the engine
    /// deterministically keeps the row with the smallest sort value per
    /// group.  The expression checks are those of [`Rows::filter`], except
    /// that any non-nullable type is accepted.
    pub fn group_by(&mut self, v: Typed) -> (r: Result<(), Error>)
        requires
            old(self).inv(),
        ensures
            final(self).inv(),
            final(self).spec_stmt() == old(self).spec_stmt(),
            final(self).spec_outer() == old(self).spec_outer(),
            final(self).spec_lo() == old(self).spec_lo(),
            final(self).spec_sources() == old(self).spec_sources(),
            final(self).spec_filters() == old(self).spec_filters(),
            final(self).spec_aggr() == old(self).spec_aggr(),
            final(self).spec_sort() == old(self).spec_sort(),
            final(self).spec_memo() == old(self).spec_memo(),
            ({
                let type_ok = !v.spec_typ().nullable;
                let scope_ok = spec_scope_ok(v.spec_stmt(), old(self).spec_stmt());
                let names_ok = spec_expr_names_wf(v.spec_expr());
                let alias_ok = spec_aliases_allowed(
                    v.spec_expr(),
                    old(self).spec_outer() + spec_top_aliases(old(self).spec_plan()),
                );
                &&& r is Ok <==> type_ok && scope_ok && names_ok && alias_ok && old(self).spec_next() < MAX_ALIAS
                &&& r is Ok ==> final(self).spec_group().len() == old(self).spec_group().len() + 1
                    && final(self).spec_group().take(old(self).spec_group().len() as int) == old(self).spec_group() && final(self).spec_group().last().0.spec_id() == old(self).spec_next() && final(self).spec_group().last().1 == v.spec_expr()
                &&& r is Err ==> *final(self) == *old(self)
            }),
    {
        let type_ok = !v.typ().nullable;
        self.check_expr(&v, type_ok)?;
        let a = self.push_keyed(v.expr, 0)?;
        Ok(())
    }

    /// Project `v` as a sort key, ordered ascending.  The checks are those
    /// of [`Rows::group_by`].
    pub fn sort_by(&mut self, v: Typed) -> (r: Result<(), Error>)
        requires
            old(self).inv(),
        ensures
            final(self).inv(),
            final(self).spec_stmt() == old(self).spec_stmt(),
            final(self).spec_outer() == old(self).spec_outer(),
            final(self).spec_lo() == old(self).spec_lo(),
            final(self).spec_sources() == old(self).spec_sources(),
            final(self).spec_filters() == old(self).spec_filters(),
            final(self).spec_aggr() == old(self).spec_aggr(),
            final(self).spec_group() == old(self).spec_group(),
            final(self).spec_memo() == old(self).spec_memo(),
            ({
                let type_ok = !v.spec_typ().nullable;
                let scope_ok = spec_scope_ok(v.spec_stmt(), old(self).spec_stmt());
                let names_ok = spec_expr_names_wf(v.spec_expr());
                let alias_ok = spec_aliases_allowed(
                    v.spec_expr(),
                    old(self).spec_outer() + spec_top_aliases(old(self).spec_plan()),
                );
                &&& r is Ok <==> type_ok && scope_ok && names_ok && alias_ok && old(self).spec_next() < MAX_ALIAS
                &&& r is Ok ==> final(self).spec_sort().len() == old(self).spec_sort().len() + 1
                    && final(self).spec_sort().take(old(self).spec_sort().len() as int) == old(self).spec_sort() && final(self).spec_sort().last().0.spec_id() == old(self).spec_next() && final(self).spec_sort().last().1 == v.spec_expr()
                &&& r is Err ==> *final(self) == *old(self)
            }),
    {
        let type_ok = !v.typ().nullable;
        self.check_expr(&v, type_ok)?;
        let a = self.push_keyed(v.expr, 2)?;
        Ok(())
    }

    /// Project the count of distinct values of `v` over this (aggregated)
    /// plan; the result handle is the projection's position among the
    /// plan's aggregates.  The checks are those of [`Rows::group_by`].
    pub fn count_distinct(&mut self, v: Typed) -> (r: Result<usize, Error>)
        requires
            old(self).inv(),
        ensures
            final(self).inv(),
            final(self).spec_stmt() == old(self).spec_stmt(),
            final(self).spec_outer() == old(self).spec_outer(),
            final(self).spec_lo() == old(self).spec_lo(),
            final(self).spec_sources() == old(self).spec_sources(),
            final(self).spec_filters() == old(self).spec_filters(),
            final(self).spec_group() == old(self).spec_group(),
            final(self).spec_sort() == old(self).spec_sort(),
            final(self).spec_memo() == old(self).spec_memo(),
            ({
                let type_ok = !v.spec_typ().nullable;
                let scope_ok = spec_scope_ok(v.spec_stmt(), old(self).spec_stmt());
                let names_ok = spec_expr_names_wf(v.spec_expr());
                let alias_ok = spec_aliases_allowed(
                    v.spec_expr(),
                    old(self).spec_outer() + spec_top_aliases(old(self).spec_plan()),
                );
                &&& r matches Ok(h) ==> type_ok && scope_ok && names_ok && alias_ok && old(self).spec_next() < MAX_ALIAS && h == old(self).spec_aggr().len() && final(self).spec_aggr().len() == old(self).spec_aggr().len() + 1 && final(self).spec_aggr().take(old(self).spec_aggr().len() as int) == old(self).spec_aggr()
                    && final(self).spec_aggr().last().0.spec_id() == old(self).spec_next() && final(self).spec_aggr().last().1 == Expr::CountDistinct(Box::new(v.spec_expr()))
                &&& r is Err <==> !(type_ok && scope_ok && names_ok && alias_ok && old(self).spec_next() < MAX_ALIAS)
                &&& r is Err ==> *final(self) == *old(self)
            }),
    {
        let type_ok = !v.typ().nullable;
        self.check_expr(&v, type_ok)?;
        let h = self.plan.aggr.len();
        let e = Expr::CountDistinct(Box::new(v.expr));
        proof {
            assert(spec_expr_names_wf(e) == spec_expr_names_wf(v.expr));
            assert(spec_expr_aliases(e) =~= spec_expr_aliases(v.expr));
        }
        let a = self.push_keyed(e, 1)?;
        Ok(h)
    }

    /// Project the sum of `v`, a non-nullable integer, over this
    /// (aggregated) plan; NULL when no rows match, so the result is a
    /// nullable integer.  The result handle is the projection's position
    /// among the plan's aggregates.
    pub fn sum(&mut self, v: Typed) -> (r: Result<usize, Error>)
        requires
            old(self).inv(),
        ensures
            final(self).inv(),
            final(self).spec_stmt() == old(self).spec_stmt(),
            final(self).spec_outer() == old(self).spec_outer(),
            final(self).spec_lo() == old(self).spec_lo(),
            final(self).spec_sources() == old(self).spec_sources(),
            final(self).spec_filters() == old(self).spec_filters(),
            final(self).spec_group() == old(self).spec_group(),
            final(self).spec_sort() == old(self).spec_sort(),
            final(self).spec_memo() == old(self).spec_memo(),
            ({
                let type_ok = v.spec_typ()@ == crate::expr::spec_int_typ();
                let scope_ok = spec_scope_ok(v.spec_stmt(), old(self).spec_stmt());
                let names_ok = spec_expr_names_wf(v.spec_expr());
                let alias_ok = spec_aliases_allowed(
                    v.spec_expr(),
                    old(self).spec_outer() + spec_top_aliases(old(self).spec_plan()),
                );
                &&& r matches Ok(h) ==> type_ok && scope_ok && names_ok && alias_ok && old(self).spec_next() < MAX_ALIAS && h == old(self).spec_aggr().len() && final(self).spec_aggr().len() == old(self).spec_aggr().len() + 1 && final(self).spec_aggr().take(old(self).spec_aggr().len() as int) == old(self).spec_aggr()
                    && final(self).spec_aggr().last().0.spec_id() == old(self).spec_next() && final(self).spec_aggr().last().1 == Expr::Sum(Box::new(v.spec_expr()))
                &&& r is Err <==> !(type_ok && scope_ok && names_ok && alias_ok && old(self).spec_next() < MAX_ALIAS)
                &&& r is Err ==> *final(self) == *old(self)
            }),
    {
        let int_t = Typ { base: BaseTyp::Int, nullable: false };
        let type_ok = crate::expr::typ_eq(&v.typ(), &int_t);
        self.check_expr(&v, type_ok)?;
        let h = self.plan.aggr.len();
        let e = Expr::Sum(Box::new(v.expr));
        proof {
            assert(spec_expr_names_wf(e) == spec_expr_names_wf(v.expr));
            assert(spec_expr_aliases(e) =~= spec_expr_aliases(v.expr));
        }
        let a = self.push_keyed(e, 1)?;
        Ok(h)
    }
}

/// Each top-level source alias occurs among the plan's aliases.
proof fn lemma_src_alias_in(ss: Seq<Source>, i: int)
    requires
        0 <= i < ss.len(),
    ensures
        spec_srcs_aliases(ss).contains(spec_src_alias(ss[i])),
    decreases ss.len(),
{
    if i == ss.len() - 1 {
        let pre = spec_srcs_aliases(ss.drop_last());
        assert(spec_src_aliases(ss.last())[0] == spec_src_alias(ss.last()));
        assert(spec_srcs_aliases(ss)[pre.len() as int] == spec_src_alias(ss[i]));
    } else {
        lemma_src_alias_in(ss.drop_last(), i);
        assert(ss.drop_last()[i] == ss[i]);
        let pre = spec_srcs_aliases(ss.drop_last());
        let j = choose|j: int| 0 <= j < pre.len() && pre[j] == spec_src_alias(ss[i]);
        assert(spec_srcs_aliases(ss)[j] == spec_src_alias(ss[i]));
    }
}

/// Every top-level alias of a plan lies in any range that bounds all of
/// the plan's aliases.
proof fn lemma_tops_in_range(p: Plan, lo: u64, hi: u64)
    requires
        spec_in_range(spec_plan_aliases(p), lo, hi),
    ensures
        forall|i: int|
            0 <= i < spec_top_aliases(p).len() ==> lo <= #[trigger] spec_top_aliases(p)[i] < hi,
{
    assert forall|i: int|
        0 <= i < spec_top_aliases(p).len() implies lo <= #[trigger] spec_top_aliases(p)[i]
        < hi by {
        lemma_src_alias_in(p.sources@, i);
        let al = spec_src_alias(p.sources@[i]);
        let j = choose|j: int|
            0 <= j < spec_srcs_aliases(p.sources@).len() && spec_srcs_aliases(p.sources@)[j] == al;
        assert(spec_plan_aliases(p)[j] == al);
    };
}

/// Builds one nested correlated sub-plan: a full select plan joined into
/// its enclosing plan, used to compute per-row aggregates.  Correlation
/// keys registered through [`Aggregate::filter_on`] are grouped inside the
/// nested plan and equated with the enclosing rows when the plan is
/// attached.  The enclosing plan is held aside while the nested plan
/// borrows the statement scope; [`Aggregate::finish`] re-attaches
/// everything.
pub struct Aggregate {
    pub(crate) outer_stmt: u64,
    pub(crate) outer_plan: Plan,
    pub(crate) outer_memo: Vec<(FieldAlias, MyAlias)>,
    pub(crate) outer_outer: Vec<u64>,
    pub(crate) outer_lo: Ghost<u64>,
    pub(crate) on: Vec<(MyAlias, Expr)>,
    pub(crate) inner: Rows,
}

impl Aggregate {
    /// The enclosing plan's statement token, for specifications.
    pub closed spec fn spec_stmt(self) -> u64 {
        self.outer_stmt
    }

    /// The nested plan's builder, for specifications.
    pub closed spec fn spec_inner(self) -> Rows {
        self.inner
    }

    /// The held-aside enclosing plan, for specifications.
    pub closed spec fn spec_outer_plan(self) -> Plan {
        self.outer_plan
    }

    /// The held-aside enclosing join cache, for specifications.
    pub closed spec fn spec_outer_memo(self) -> Seq<(FieldAliasV, u64)> {
        spec_memo_view(self.outer_memo@)
    }

    /// The enclosing plan's own enclosing aliases, for specifications.
    pub closed spec fn spec_outer_outer(self) -> Seq<u64> {
        self.outer_outer@
    }

    /// The registered correlation keys, for specifications: the nested
    /// grouping alias of each key and the enclosing expression it is
    /// equated with.
    pub closed spec fn spec_on(self) -> Seq<(MyAlias, Expr)> {
        self.on@
    }

    /// Well-formedness: the nested builder is well formed, sees exactly
    /// the enclosing aliases, and the held-aside enclosing plan keeps the
    /// enclosing builder's own well-formedness.
    pub closed spec fn inv(self) -> bool {
        &&& self.inner.inv()
        &&& self.inner.spec_stmt() == self.outer_stmt
        &&& self.outer_lo@ <= self.inner.spec_lo()
        &&& spec_in_range(
            spec_plan_aliases(self.outer_plan),
            self.outer_lo@,
            self.inner.spec_lo(),
        )
        &&& spec_distinct(spec_plan_aliases(self.outer_plan))
        &&& forall|i: int|
            0 <= i < self.outer_outer@.len() ==> #[trigger] self.outer_outer@[i] < self.outer_lo@
        &&& spec_plan_names_wf(self.outer_plan)
        &&& spec_plan_scoped(self.outer_plan, self.outer_outer@.to_set())
        &&& forall|i: int|
            0 <= i < self.spec_outer_memo().len() ==> spec_top_aliases(
                self.outer_plan,
            ).to_set().contains((#[trigger] self.spec_outer_memo()[i]).1)
        &&& self.inner.spec_outer() == self.outer_outer@ + spec_top_aliases(self.outer_plan)
        &&& forall|i: int|
            0 <= i < self.on@.len() ==> spec_expr_names_wf((#[trigger] self.on@[i]).1)
                && spec_expr_aliases(self.on@[i].1).subset_of(
                self.outer_outer@.to_set().union(spec_top_aliases(self.outer_plan).to_set()),
            )
    }

    /// Begin a nested correlated sub-plan of `outer`.  The nested plan may
    /// reference the enclosing sources (correlation flows outward to
    /// inward only).
    pub fn new(outer: Rows) -> (r: Aggregate)
        requires
            outer.inv(),
        ensures
            r.inv(),
            r.spec_stmt() == outer.spec_stmt(),
            r.spec_outer_plan() == outer.spec_plan(),
            r.spec_outer_memo() == outer.spec_memo(),
            r.spec_outer_outer() == outer.spec_outer(),
            r.spec_inner().spec_sources().len() == 0,
            r.spec_inner().spec_filters().len() == 0,
            r.spec_inner().spec_group().len() == 0,
            r.spec_inner().spec_aggr().len() == 0,
            r.spec_inner().spec_sort().len() == 0,
            r.spec_inner().spec_outer() == outer.spec_outer() + spec_top_aliases(
                outer.spec_plan(),
            ),
            r.spec_on().len() == 0,
    {
        let combined = outer.allowed_vec();
        let ghost osnap = outer;
        let Rows { stmt, scope, plan, memo, outer: oo, lo } = outer;
        let ghost nx = scope.spec_next();
        let inner = Rows {
            stmt,
            scope,
            plan: Plan {
                sources: Vec::new(),
                filters: Vec::new(),
                group: Vec::new(),
                aggr: Vec::new(),
                sort: Vec::new(),
            },
            memo: Vec::new(),
            outer: combined,
            lo: Ghost(nx),
        };
        let r = Aggregate {
            outer_stmt: stmt,
            outer_plan: plan,
            outer_memo: memo,
            outer_outer: oo,
            outer_lo: lo,
            on: Vec::new(),
            inner,
        };
        proof {
            assert(spec_plan_aliases(r.inner.plan) =~= Seq::<u64>::empty());
            assert(spec_top_aliases(r.inner.plan) =~= Seq::<u64>::empty());
            assert(spec_memo_view(r.inner.memo@) =~= Seq::<(FieldAliasV, u64)>::empty());
            lemma_tops_in_range(r.outer_plan, r.outer_lo@, nx);
            assert forall|i: int|
                0 <= i < r.spec_outer_memo().len() implies spec_top_aliases(
                r.outer_plan,
            ).to_set().contains((#[trigger] r.spec_outer_memo()[i]).1) by {
                assert(r.spec_outer_memo() =~= osnap.spec_memo());
                assert(spec_top_aliases(osnap.plan).to_set().contains(osnap.spec_memo()[i].1));
            };
            assert forall|i: int|
                0 <= i < r.inner.outer@.len() implies #[trigger] r.inner.outer@[i]
                < r.inner.lo@ by {
                if i < osnap.spec_outer().len() {
                    assert(r.inner.outer@[i] == osnap.spec_outer()[i]);
                } else {
                    assert(r.inner.outer@[i] == spec_top_aliases(r.outer_plan)[i - osnap.spec_outer().len()]);
                }
            };
        }
        r
    }

    /// The nested plan's builder: join, filter and aggregate through it.
    pub fn rows(&mut self) -> (r: &mut Rows)
        ensures
            *r == old(self).spec_inner(),
            final(self).spec_inner() == *final(r),
            final(self).spec_stmt() == old(self).spec_stmt(),
            final(self).spec_outer_plan() == old(self).spec_outer_plan(),
            final(self).spec_outer_memo() == old(self).spec_outer_memo(),
            final(self).spec_outer_outer() == old(self).spec_outer_outer(),
            final(self).spec_on() == old(self).spec_on(),
    {
        &mut self.inner
    }

    /// The enclosing aliases this nested plan may correlate with.
    fn outer_allowed_vec(&self) -> (r: Vec<u64>)
        ensures
            r@ == self.spec_outer_outer() + spec_top_aliases(self.spec_outer_plan()),
    {
        let mut out: Vec<u64> = Vec::new();
        let mut i: usize = 0;
        while i < self.outer_outer.len()
            invariant
                i <= self.outer_outer@.len(),
                out@ =~= self.outer_outer@.take(i as int),
            decreases self.outer_outer@.len() - i,
        {
            out.push(self.outer_outer[i]);
            i = i + 1;
        }
        proof {
            assert(self.outer_outer@.take(self.outer_outer@.len() as int) =~= self.outer_outer@);
        }
        let mut i: usize = 0;
        while i < self.outer_plan.sources.len()
            invariant
                i <= self.outer_plan.sources@.len(),
                out@ =~= self.outer_outer@ + spec_top_aliases(self.outer_plan).take(i as int),
            decreases self.outer_plan.sources@.len() - i,
        {
            let a = match &self.outer_plan.sources[i] {
                Source::Table { alias, .. } => *alias,
                Source::Nested { alias, .. } => *alias,
            };
            out.push(a.id());
            proof {
                assert(spec_top_aliases(self.outer_plan)[i as int] == spec_src_alias(
                    self.outer_plan.sources@[i as int],
                ));
                assert(spec_top_aliases(self.outer_plan).take(i + 1).drop_last()
                    =~= spec_top_aliases(self.outer_plan).take(i as int));
                assert(out@ =~= self.outer_outer@ + spec_top_aliases(self.outer_plan).take(i + 1));
            }
            i = i + 1;
        }
        proof {
            assert(spec_top_aliases(self.outer_plan).take(
                spec_top_aliases(self.outer_plan).len() as int,
            ) =~= spec_top_aliases(self.outer_plan));
        }
        out
    }

    /// Correlate the nested plan with its enclosing plan: group the
    /// nested rows by `inner` and keep, for each enclosing row, the group
    /// whose key equals `outer`.  Rejected, before any SQL is emitted,
    /// when the two expressions' type tags differ or are nullable, when
    /// either was built for another statement, or when either references
    /// aliases outside its side's scope.
    pub fn filter_on(&mut self, inner: Typed, outer: Typed) -> (r: Result<(), Error>)
        requires
            old(self).inv(),
        ensures
            final(self).inv(),
            final(self).spec_stmt() == old(self).spec_stmt(),
            final(self).spec_outer_plan() == old(self).spec_outer_plan(),
            final(self).spec_outer_memo() == old(self).spec_outer_memo(),
            final(self).spec_outer_outer() == old(self).spec_outer_outer(),
            ({
                let type_ok = inner.spec_typ()@ == outer.spec_typ()@
                    && !inner.spec_typ().nullable;
                let outer_ok = spec_scope_ok(outer.spec_stmt(), old(self).spec_stmt())
                    && spec_expr_names_wf(outer.spec_expr()) && spec_aliases_allowed(
                    outer.spec_expr(),
                    old(self).spec_outer_outer() + spec_top_aliases(old(self).spec_outer_plan()),
                );
                let inner_ok = spec_scope_ok(inner.spec_stmt(), old(self).spec_stmt())
                    && spec_expr_names_wf(inner.spec_expr()) && spec_aliases_allowed(
                    inner.spec_expr(),
                    old(self).spec_inner().spec_outer() + spec_top_aliases(
                        old(self).spec_inner().spec_plan(),
                    ),
                );
                &&& (r is Ok <==> type_ok && outer_ok && inner_ok && old(
                    self,
                ).spec_inner().spec_next() < MAX_ALIAS)
                &&& !type_ok ==> r == Result::<(), Error>::Err(Error::TypeMismatch)
            }),
            r is Ok ==> final(self).spec_on().len() == old(self).spec_on().len() + 1
                && final(self).spec_on().last().1 == outer.spec_expr()
                && final(self).spec_inner().spec_group().len() == old(self).spec_inner().spec_group().len() + 1 && final(self).spec_inner().spec_group().last().1 == inner.spec_expr() && final(self).spec_on().last().0 == final(self).spec_inner().spec_group().last().0,
            r is Err ==> *final(self) == *old(self),
    {
        let same = crate::expr::typ_eq(&inner.typ(), &outer.typ());
        if !same || inner.typ().nullable {
            return Err(Error::TypeMismatch);
        }
        match &outer.stmt {
            Some(t) => {
                if *t != self.outer_stmt {
                    return Err(Error::ScopeMismatch);
                }
            },
            None => {},
        }
        if !expr_names_ok(&outer.expr) {
            return Err(Error::UnknownColumn);
        }
        let allowed = self.outer_allowed_vec();
        if !aliases_allowed(&outer.expr, &allowed) {
            return Err(Error::AliasOutOfScope);
        }
        self.inner.check_expr(&inner, true)?;
        let k = self.inner.push_keyed(inner.expr, 0)?;
        self.on.push((k, outer.expr));
        proof {
            assert forall|i: int|
                0 <= i < self.spec_outer_memo().len() implies spec_top_aliases(
                self.outer_plan,
            ).to_set().contains((#[trigger] self.spec_outer_memo()[i]).1) by {
                assert(self.spec_outer_memo() =~= old(self).spec_outer_memo());
                assert(spec_top_aliases(old(self).outer_plan).to_set().contains(
                    old(self).spec_outer_memo()[i].1,
                ));
            };
            assert forall|i: int|
                0 <= i < self.on@.len() implies spec_expr_names_wf((#[trigger] self.on@[i]).1)
                    && spec_expr_aliases(self.on@[i].1).subset_of(
                    self.outer_outer@.to_set().union(spec_top_aliases(self.outer_plan).to_set()),
                ) by {
                if i < self.on@.len() - 1 {
                    assert(self.on@[i] == old(self).on@[i]);
                } else {
                    lemma_allowed_to_set(
                        self.on@[i].1,
                        self.outer_outer@,
                        spec_top_aliases(self.outer_plan),
                    );
                }
            };
        }
        Ok(())
    }

    /// Attach the nested plan to the enclosing plan as a joined source
    /// under a fresh alias, equated with the enclosing rows on the
    /// registered correlation keys, and hand back the enclosing builder
    /// together with one typed output column per aggregate projection, in
    /// projection order.  Enclosing rows without a matching aggregate row
    /// see an absent value, so the outputs are nullable and callers
    /// coalesce them with an outer-compatible default.  Fails only when
    /// the statement scope has run out of aliases.
    pub fn finish(self) -> (r: Result<(Rows, Vec<Typed>), Error>)
        requires
            self.inv(),
        ensures
            r is Ok <==> self.spec_inner().spec_next() < MAX_ALIAS,
            r matches Ok(out) ==> {
                let rows = out.0;
                let cols = out.1;
                let lat = self.spec_inner().spec_next();
                &&& rows.inv()
                &&& rows.spec_stmt() == self.spec_stmt()
                &&& rows.spec_outer() == self.spec_outer_outer()
                &&& rows.spec_memo() == self.spec_outer_memo()
                &&& rows.spec_filters() == self.spec_outer_plan().filters@
                &&& rows.spec_group() == self.spec_outer_plan().group@
                &&& rows.spec_aggr() == self.spec_outer_plan().aggr@
                &&& rows.spec_sort() == self.spec_outer_plan().sort@
                &&& rows.spec_sources().len() == self.spec_outer_plan().sources@.len() + 1
                &&& rows.spec_sources().take(self.spec_outer_plan().sources@.len() as int)
                    == self.spec_outer_plan().sources@
                &&& (rows.spec_sources().last() matches Source::Nested { alias, plan, on }
                    && alias.spec_id() == lat && *plan == self.spec_inner().spec_plan() && on@
                    == self.spec_on())
                &&& cols@.len() == self.spec_inner().spec_aggr().len()
                &&& forall|i: int|
                    0 <= i < cols@.len() ==> ((#[trigger] cols@[i]).spec_expr() matches Expr::Col(
                        f,
                    ) && f@ == (FieldAliasV {
                        table: lat,
                        col: FieldV::U64(self.spec_inner().spec_aggr()[i].0.spec_id()),
                    }) && cols@[i].spec_stmt() == Option::Some(self.spec_stmt())
                        && cols@[i].spec_typ()@ == spec_aggr_typ(
                        self.spec_inner().spec_aggr()[i].1,
                    ))
            },
    {
        let Aggregate { outer_stmt, outer_plan, outer_memo, outer_outer, outer_lo, on, inner } =
            self;
        let mut inner = inner;
        let lat = match MyAlias::new(&mut inner.scope) {
            Some(a) => a,
            None => {
                return Err(Error::ScopeExhausted);
            },
        };
        let mut cols: Vec<Typed> = Vec::new();
        let mut i: usize = 0;
        while i < inner.plan.aggr.len()
            invariant
                i <= inner.plan.aggr@.len(),
                cols@.len() == i,
                forall|j: int|
                    0 <= j < i ==> ((#[trigger] cols@[j]).spec_expr() matches Expr::Col(f) && f@
                        == (FieldAliasV {
                        table: lat.spec_id(),
                        col: FieldV::U64(inner.plan.aggr@[j].0.spec_id()),
                    }) && cols@[j].spec_stmt() == Option::Some(outer_stmt) && cols@[j].spec_typ()@
                        == spec_aggr_typ(inner.plan.aggr@[j].1)),
            decreases inner.plan.aggr@.len() - i,
        {
            let (a, e) = &inner.plan.aggr[i];
            let typ = Typ { base: BaseTyp::Int, nullable: true };
            cols.push(Typed::col(lat, Field::U64(*a), typ, outer_stmt));
            i = i + 1;
        }
        let mut plan = outer_plan;
        let src = Source::Nested { alias: lat, plan: Box::new(inner.plan), on };
        proof {
            lemma_srcs_aliases_push(plan.sources@, src);
        }
        plan.sources.push(src);
        let rows = Rows {
            stmt: outer_stmt,
            scope: inner.scope,
            plan,
            memo: outer_memo,
            outer: outer_outer,
            lo: outer_lo,
        };
        proof {
            let oldip = self.inner.plan;
            let oldop = self.outer_plan;
            let newp = rows.plan;
            let split = self.inner.lo@;
            let nx0 = self.inner.scope.spec_next();
            let nx1 = rows.scope.spec_next();
            let x = spec_srcs_aliases(oldop.sources@);
            let k = spec_keyed_aliases(oldop.group@) + spec_keyed_aliases(oldop.aggr@)
                + spec_keyed_aliases(oldop.sort@);
            let m = seq![lat.spec_id()] + spec_plan_aliases(oldip);
            assert(spec_plan_aliases(oldop) =~= x + k);
            assert(spec_src_aliases(src) =~= m);
            assert(spec_plan_aliases(newp) =~= x + m + k);
            assert forall|i2: int| 0 <= i2 < m.len() implies split <= #[trigger] m[i2] < nx1 by {
                if i2 == 0 {
                } else {
                    assert(m[i2] == spec_plan_aliases(oldip)[i2 - 1]);
                }
            };
            assert forall|i2: int, j2: int| 0 <= i2 < j2 < m.len() implies m[i2] != m[j2] by {
                if i2 == 0 {
                    assert(m[j2] == spec_plan_aliases(oldip)[j2 - 1]);
                } else {
                    assert(m[i2] == spec_plan_aliases(oldip)[i2 - 1]);
                    assert(m[j2] == spec_plan_aliases(oldip)[j2 - 1]);
                }
            };
            lemma_insert_mid(x, m, k, self.outer_lo@, split, nx1);
            assert(spec_top_aliases(newp) =~= spec_top_aliases(oldop).push(lat.spec_id()));
            // names
            assert forall|i2: int| 0 <= i2 < newp.sources@.len() implies spec_src_names_wf(
                #[trigger] newp.sources@[i2],
            ) by {
                if i2 < newp.sources@.len() - 1 {
                    assert(newp.sources@[i2] == oldop.sources@[i2]);
                } else {
                    assert(newp.sources@[i2] == src);
                    assert(spec_plan_names_wf(oldip));
                    assert forall|k: int| 0 <= k < self.on@.len() implies spec_expr_names_wf(
                        (#[trigger] self.on@[k]).1,
                    ) by {}
                }
            };
            // scoping
            let o1 = outer_outer@.to_set().union(spec_top_aliases(oldop).to_set());
            let o2 = outer_outer@.to_set().union(spec_top_aliases(newp).to_set());
            assert forall|v: u64| o1.contains(v) implies o2.contains(v) by {
                if spec_top_aliases(oldop).to_set().contains(v) {
                    let j = choose|j: int|
                        0 <= j < spec_top_aliases(oldop).len() && spec_top_aliases(oldop)[j] == v;
                    assert(spec_top_aliases(newp)[j] == v);
                    assert(spec_top_aliases(newp).contains(v));
                }
            };
            assert forall|i2: int| 0 <= i2 < newp.sources@.len() implies spec_src_scoped(
                #[trigger] newp.sources@[i2],
                o2,
            ) by {
                if i2 < newp.sources@.len() - 1 {
                    assert(newp.sources@[i2] == oldop.sources@[i2]);
                    assert(spec_src_scoped(oldop.sources@[i2], o1));
                    match newp.sources@[i2] {
                        Source::Nested { plan: np, .. } => {
                            lemma_scoped_monotone(*np, o1, o2);
                        },
                        Source::Table { .. } => {},
                    }
                } else {
                    assert(newp.sources@[i2] == src);
                    assert forall|k: int| 0 <= k < self.on@.len() implies spec_expr_aliases(
                        (#[trigger] self.on@[k]).1,
                    ).subset_of(o2) by {
                        assert(spec_expr_aliases(self.on@[k].1).subset_of(
                            outer_outer@.to_set().union(spec_top_aliases(oldop).to_set()),
                        ));
                    };
                    // the nested plan was scoped over the aliases it could see
                    assert(spec_plan_scoped(oldip, self.inner.outer@.to_set()));
                    assert(self.inner.outer@ == outer_outer@ + spec_top_aliases(oldop));
                    assert forall|v: u64|
                        self.inner.outer@.to_set().contains(v) implies o2.contains(v) by {
                        let j = choose|j: int|
                            0 <= j < self.inner.outer@.len() && self.inner.outer@[j] == v;
                        if j < outer_outer@.len() {
                            assert(outer_outer@[j] == v);
                            assert(outer_outer@.contains(v));
                        } else {
                            assert(spec_top_aliases(oldop)[j - outer_outer@.len()] == v);
                            assert(spec_top_aliases(oldop).contains(v));
                            assert(spec_top_aliases(oldop).to_set().contains(v));
                        }
                    };
                    lemma_scoped_monotone(oldip, self.inner.outer@.to_set(), o2);
                }
            };
            assert forall|i2: int|
                0 <= i2 < newp.filters@.len() implies spec_expr_aliases(
                #[trigger] newp.filters@[i2],
            ).subset_of(o2) by {
                assert(spec_expr_aliases(oldop.filters@[i2]).subset_of(o1));
            };
            assert forall|i2: int|
                0 <= i2 < newp.group@.len() implies spec_expr_aliases(
                (#[trigger] newp.group@[i2]).1,
            ).subset_of(o2) by {
                assert(spec_expr_aliases((oldop.group@[i2]).1).subset_of(o1));
            };
            assert forall|i2: int|
                0 <= i2 < newp.aggr@.len() implies spec_expr_aliases(
                (#[trigger] newp.aggr@[i2]).1,
            ).subset_of(o2) by {
                assert(spec_expr_aliases((oldop.aggr@[i2]).1).subset_of(o1));
            };
            assert forall|i2: int|
                0 <= i2 < newp.sort@.len() implies spec_expr_aliases(
                (#[trigger] newp.sort@[i2]).1,
            ).subset_of(o2) by {
                assert(spec_expr_aliases((oldop.sort@[i2]).1).subset_of(o1));
            };
            // memo
            assert forall|i2: int|
                0 <= i2 < rows.spec_memo().len() implies spec_top_aliases(newp).to_set().contains(
                (#[trigger] rows.spec_memo()[i2]).1,
            ) by {
                assert(rows.spec_memo() =~= self.spec_outer_memo());
                assert(spec_top_aliases(oldop).to_set().contains(self.spec_outer_memo()[i2].1));
                let j = choose|j: int|
                    0 <= j < spec_top_aliases(oldop).len() && spec_top_aliases(oldop)[j]
                        == self.spec_outer_memo()[i2].1;
                assert(spec_top_aliases(newp)[j] == self.spec_outer_memo()[i2].1);
                assert(spec_top_aliases(newp).contains(self.spec_outer_memo()[i2].1));
            };
            assert(rows.spec_sources().take(oldop.sources@.len() as int) =~= oldop.sources@);
        }
        Ok((rows, cols))
    }
}

} // verus!
