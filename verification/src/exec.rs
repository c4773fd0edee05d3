//! Compiling a select plan to one SQL statement, and running it.
//!
//! [`compile_select`] turns a plan and a projection list into exactly the
//! statement text and bound-parameter list given by the specification
//! functions below: one `SELECT` whose table sources are inner joins;
//! nested correlated plans are parenthesised sub-selects, grouped on
//! their correlation keys and joined so that every enclosing row keeps at
//! most one aggregate row and rows without one survive with absent
//! outputs; filters are ANDed into the `WHERE` clause; grouping keys are
//! projected, grouped on and ordered ascending before the sort keys, so
//! the engine deterministically keeps the row with the smallest sort
//! value per group.  Constants are never spliced into the text: each
//! renders as a placeholder and is passed as a bound parameter.

use vstd::prelude::*;
use crate::alias::{Field, FieldAlias, MyAlias};
use crate::expr::{
    spec_expr_names_wf, spec_scope_ok, spec_aliases_allowed, ConstVal, Expr, Typed,
};
use crate::plan::{spec_plan_names_wf, spec_src_names_wf, spec_top_aliases, Plan, Rows, Source};
use crate::render::{push_alias, push_quoted, spec_alias_name, spec_is_ident, spec_quoted};
use crate::store::{raw_query, SqlVal, SqlValV};
use crate::Error;

verus! {

/// The parameters a constant binds: an absent optional binds NULL.
pub open spec fn spec_const_param(v: ConstVal) -> SqlValV {
    match v {
        ConstVal::Int(i) => SqlValV::Int(i as int),
        ConstVal::Bool(b) => SqlValV::Int(if b { 1int } else { 0int }),
        ConstVal::Text(s) => SqlValV::Text(s@),
        ConstVal::OptInt(o) => match o {
            Option::Some(i) => SqlValV::Int(i as int),
            Option::None => SqlValV::Null,
        },
        ConstVal::OptBool(o) => match o {
            Option::Some(b) => SqlValV::Int(if b { 1int } else { 0int }),
            Option::None => SqlValV::Null,
        },
        ConstVal::OptText(o) => match o {
            Option::Some(s) => SqlValV::Text(s@),
            Option::None => SqlValV::Null,
        },
    }
}

/// The text of a field reference: the source alias, a dot, the column.
pub open spec fn spec_field_sql(f: FieldAlias) -> Seq<char> {
    spec_quoted(spec_alias_name(f.table.spec_id())) + "."@ + (match f.col {
        Field::Str(s) => spec_quoted(s@),
        Field::U64(a) => spec_quoted(spec_alias_name(a.spec_id())),
    })
}

/// The text of an expression; constants render as placeholders.
pub open spec fn spec_expr_sql(e: Expr) -> Seq<char>
    decreases e,
{
    match e {
        Expr::Col(f) => spec_field_sql(f),
        Expr::Lit(_) => "?"@,
        Expr::Add(a, b) => "("@ + spec_expr_sql(*a) + " + "@ + spec_expr_sql(*b) + ")"@,
        Expr::Lt(a, _) => "("@ + spec_expr_sql(*a) + " < ?)"@,
        Expr::Eq(a, b) => "("@ + spec_expr_sql(*a) + " = "@ + spec_expr_sql(*b) + ")"@,
        Expr::Not(a) => "(NOT "@ + spec_expr_sql(*a) + ")"@,
        Expr::IfNull(a, b) => "IFNULL("@ + spec_expr_sql(*a) + ", "@ + spec_expr_sql(*b) + ")"@,
        Expr::CountDistinct(a) => "count(DISTINCT "@ + spec_expr_sql(*a) + ")"@,
        Expr::Sum(a) => "sum("@ + spec_expr_sql(*a) + ")"@,
    }
}

/// The parameters an expression binds, in placeholder order.
pub open spec fn spec_expr_params(e: Expr) -> Seq<SqlValV>
    decreases e,
{
    match e {
        Expr::Col(_) => Seq::empty(),
        Expr::Lit(v) => seq![spec_const_param(v)],
        Expr::Add(a, b) => spec_expr_params(*a) + spec_expr_params(*b),
        Expr::Lt(a, c) => spec_expr_params(*a) + seq![SqlValV::Int(c as int)],
        Expr::Eq(a, b) => spec_expr_params(*a) + spec_expr_params(*b),
        Expr::Not(a) => spec_expr_params(*a),
        Expr::IfNull(a, b) => spec_expr_params(*a) + spec_expr_params(*b),
        Expr::CountDistinct(a) => spec_expr_params(*a),
        Expr::Sum(a) => spec_expr_params(*a),
    }
}

/// The projection text of plain select items, each preceded by a comma.
pub open spec fn spec_sel_sql(es: Seq<Expr>) -> Seq<char>
    decreases es,
{
    if es.len() == 0 {
        Seq::empty()
    } else {
        spec_sel_sql(es.drop_last()) + ", "@ + spec_expr_sql(es.last())
    }
}

/// The parameters of plain select items.
pub open spec fn spec_sel_params(es: Seq<Expr>) -> Seq<SqlValV>
    decreases es,
{
    if es.len() == 0 {
        Seq::empty()
    } else {
        spec_sel_params(es.drop_last()) + spec_expr_params(es.last())
    }
}

/// The projection text of keyed items, each named by its alias.
pub open spec fn spec_keyed_sql(v: Seq<(MyAlias, Expr)>) -> Seq<char>
    decreases v,
{
    if v.len() == 0 {
        Seq::empty()
    } else {
        spec_keyed_sql(v.drop_last()) + ", "@ + spec_expr_sql(v.last().1) + " AS "@ + spec_quoted(
            spec_alias_name(v.last().0.spec_id()),
        )
    }
}

/// The parameters of keyed items.
pub open spec fn spec_keyed_params(v: Seq<(MyAlias, Expr)>) -> Seq<SqlValV>
    decreases v,
{
    if v.len() == 0 {
        Seq::empty()
    } else {
        spec_keyed_params(v.drop_last()) + spec_expr_params(v.last().1)
    }
}

/// The filter conjunction, each filter ANDed onto the always-true base.
pub open spec fn spec_filters_sql(fs: Seq<Expr>) -> Seq<char>
    decreases fs,
{
    if fs.len() == 0 {
        Seq::empty()
    } else {
        spec_filters_sql(fs.drop_last()) + " AND "@ + spec_expr_sql(fs.last())
    }
}

/// The parameters of the filter conjunction.
pub open spec fn spec_filters_params(fs: Seq<Expr>) -> Seq<SqlValV>
    decreases fs,
{
    if fs.len() == 0 {
        Seq::empty()
    } else {
        spec_filters_params(fs.drop_last()) + spec_expr_params(fs.last())
    }
}

/// A comma-separated list of alias names.
pub open spec fn spec_alias_list(v: Seq<u64>) -> Seq<char>
    decreases v,
{
    if v.len() == 0 {
        Seq::empty()
    } else if v.len() == 1 {
        spec_quoted(spec_alias_name(v[0]))
    } else {
        spec_alias_list(v.drop_last()) + ", "@ + spec_quoted(spec_alias_name(v.last()))
    }
}

/// The correlation conditions of a nested source: each grouped key of
/// the nested plan equated with its enclosing expression.
pub open spec fn spec_on_sql(lat: u64, on: Seq<(MyAlias, Expr)>) -> Seq<char>
    decreases on,
{
    if on.len() == 0 {
        Seq::empty()
    } else {
        spec_on_sql(lat, on.drop_last()) + " AND "@ + spec_quoted(spec_alias_name(lat)) + "."@
            + spec_quoted(spec_alias_name(on.last().0.spec_id())) + " = "@ + spec_expr_sql(
            on.last().1,
        )
    }
}

/// The parameters of the correlation conditions.
pub open spec fn spec_on_params(on: Seq<(MyAlias, Expr)>) -> Seq<SqlValV>
    decreases on,
{
    if on.len() == 0 {
        Seq::empty()
    } else {
        spec_on_params(on.drop_last()) + spec_expr_params(on.last().1)
    }
}

/// The join fragment of one source: a table is an inner join with an
/// always-true condition; a nested plan is a parenthesised sub-select
/// joined so that enclosing rows without a matching aggregate row are
/// kept with absent outputs, equated on its correlation keys.
pub open spec fn spec_src_sql(s: Source) -> Seq<char>
    decreases s,
{
    match s {
        Source::Table { name, alias } => " JOIN "@ + spec_quoted(name@) + " AS "@ + spec_quoted(
            spec_alias_name(alias.spec_id()),
        ) + " ON 1"@,
        Source::Nested { alias, plan, on } => " LEFT JOIN ("@ + spec_select_sql(
            *plan,
            Expr::Lit(ConstVal::Int(1)),
            Seq::empty(),
        ) + ") AS "@ + spec_quoted(spec_alias_name(alias.spec_id())) + " ON 1"@ + spec_on_sql(
            alias.spec_id(),
            on@,
        ),
    }
}

/// The parameters of one source's join fragment.
pub open spec fn spec_src_params(s: Source) -> Seq<SqlValV>
    decreases s,
{
    match s {
        Source::Table { .. } => Seq::empty(),
        Source::Nested { plan, on, .. } => spec_select_params(
            *plan,
            Expr::Lit(ConstVal::Int(1)),
            Seq::empty(),
        ) + spec_on_params(on@),
    }
}

/// The join list: every source joined, in order, onto a constant
/// single-row base.
pub open spec fn spec_srcs_sql(ss: Seq<Source>) -> Seq<char>
    decreases ss,
{
    if ss.len() == 0 {
        Seq::empty()
    } else {
        spec_srcs_sql(ss.drop_last()) + spec_src_sql(ss.last())
    }
}

/// The parameters of the join list.
pub open spec fn spec_srcs_params(ss: Seq<Source>) -> Seq<SqlValV>
    decreases ss,
{
    if ss.len() == 0 {
        Seq::empty()
    } else {
        spec_srcs_params(ss.drop_last()) + spec_src_params(ss.last())
    }
}

/// The complete statement for plan `p` with extra select items `sel`: a
/// constant leading projection keeps the list well formed, then the plain
/// items, then grouping keys, aggregates and sort keys under their alias
/// names; sources; the filter conjunction; grouping; and ordering first by
/// the grouping keys, then by the sort keys, all ascending.
pub open spec fn spec_select_sql(p: Plan, lead: Expr, sel: Seq<Expr>) -> Seq<char>
    decreases p,
{
    "SELECT "@ + spec_expr_sql(lead) + spec_sel_sql(sel) + spec_keyed_sql(p.group@) + spec_keyed_sql(p.aggr@)
        + spec_keyed_sql(p.sort@) + (if p.sources@.len() == 0 {
        Seq::<char>::empty()
    } else {
        " FROM (SELECT 1)"@ + spec_srcs_sql(p.sources@)
    }) + " WHERE 1"@ + spec_filters_sql(p.filters@) + (if p.group@.len() == 0 {
        Seq::<char>::empty()
    } else {
        " GROUP BY "@ + spec_alias_list(crate::plan::spec_keyed_aliases(p.group@))
    }) + (if p.group@.len() + p.sort@.len() == 0 {
        Seq::<char>::empty()
    } else {
        " ORDER BY "@ + spec_alias_list(
            crate::plan::spec_keyed_aliases(p.group@) + crate::plan::spec_keyed_aliases(p.sort@),
        )
    })
}

/// The statement's parameters, in placeholder order: projections, then
/// sources, then filters.
pub open spec fn spec_select_params(p: Plan, lead: Expr, sel: Seq<Expr>) -> Seq<SqlValV>
    decreases p,
{
    spec_expr_params(lead) + spec_sel_params(sel) + spec_keyed_params(p.group@) + spec_keyed_params(p.aggr@)
        + spec_keyed_params(p.sort@) + spec_srcs_params(p.sources@) + spec_filters_params(
        p.filters@,
    )
}

/// Append the parameter a constant binds.
fn push_const_param(params: &mut Vec<SqlVal>, v: &ConstVal)
    ensures
        final(params)@.len() == old(params)@.len() + 1,
        final(params)@.map_values(|x: SqlVal| x@) == old(params)@.map_values(|x: SqlVal| x@).push(
            spec_const_param(*v),
        ),
{
    let p = match v {
        ConstVal::Int(i) => SqlVal::Int(*i),
        ConstVal::Bool(b) => SqlVal::Int(if *b { 1i64 } else { 0i64 }),
        ConstVal::Text(s) => SqlVal::Text(s.clone()),
        ConstVal::OptInt(o) => match o {
            Some(i) => SqlVal::Int(*i),
            None => SqlVal::Null,
        },
        ConstVal::OptBool(o) => match o {
            Some(b) => SqlVal::Int(if *b { 1i64 } else { 0i64 }),
            None => SqlVal::Null,
        },
        ConstVal::OptText(o) => match o {
            Some(s) => SqlVal::Text(s.clone()),
            None => SqlVal::Null,
        },
    };
    proof {
        assert(p@ == spec_const_param(*v));
    }
    params.push(p);
    proof {
        assert(final(params)@.map_values(|x: SqlVal| x@) =~= old(params)@.map_values(
            |x: SqlVal| x@,
        ).push(spec_const_param(*v)));
    }
}

/// Append the text of a field reference.
fn push_field(out: &mut String, f: &FieldAlias)
    requires
        f.col matches Field::Str(s) ==> spec_is_ident(s@),
    ensures
        final(out)@ == old(out)@ + spec_field_sql(*f),
{
    push_alias(out, f.table.id());
    out.append(".");
    match &f.col {
        Field::Str(s) => push_quoted(out, s.as_str()),
        Field::U64(a) => push_alias(out, a.id()),
    }
    proof {
        reveal_strlit(".");
        assert(final(out)@ =~= old(out)@ + spec_field_sql(*f));
    }
}

/// Append the text and parameters of an expression.
fn push_expr(out: &mut String, params: &mut Vec<SqlVal>, e: &Expr)
    requires
        spec_expr_names_wf(*e),
    ensures
        final(out)@ == old(out)@ + spec_expr_sql(*e),
        final(params)@.map_values(|x: SqlVal| x@) == old(params)@.map_values(|x: SqlVal| x@)
            + spec_expr_params(*e),
    decreases *e,
{
    let ghost m0 = params@.map_values(|x: SqlVal| x@);
    match e {
        Expr::Col(f) => {
            push_field(out, f);
            proof {
                assert(final(params)@.map_values(|x: SqlVal| x@) =~= m0 + spec_expr_params(*e));
            }
        },
        Expr::Lit(v) => {
            out.append("?");
            push_const_param(params, v);
            proof {
                assert(final(params)@.map_values(|x: SqlVal| x@) =~= m0 + spec_expr_params(*e));
            }
        },
        Expr::Add(a, b) => {
            out.append("(");
            push_expr(out, params, a);
            out.append(" + ");
            push_expr(out, params, b);
            out.append(")");
            proof {
                assert(final(out)@ =~= old(out)@ + spec_expr_sql(*e));
                assert(final(params)@.map_values(|x: SqlVal| x@) =~= m0 + spec_expr_params(*e));
            }
        },
        Expr::Lt(a, c) => {
            out.append("(");
            push_expr(out, params, a);
            out.append(" < ?)");
            let ghost m1 = params@.map_values(|x: SqlVal| x@);
            params.push(SqlVal::Int(*c));
            proof {
                assert(final(out)@ =~= old(out)@ + spec_expr_sql(*e));
                assert(final(params)@.map_values(|x: SqlVal| x@) =~= m1.push(
                    SqlValV::Int(*c as int),
                ));
                assert(final(params)@.map_values(|x: SqlVal| x@) =~= m0 + spec_expr_params(*e));
            }
        },
        Expr::Eq(a, b) => {
            out.append("(");
            push_expr(out, params, a);
            out.append(" = ");
            push_expr(out, params, b);
            out.append(")");
            proof {
                assert(final(out)@ =~= old(out)@ + spec_expr_sql(*e));
                assert(final(params)@.map_values(|x: SqlVal| x@) =~= m0 + spec_expr_params(*e));
            }
        },
        Expr::Not(a) => {
            out.append("(NOT ");
            push_expr(out, params, a);
            out.append(")");
            proof {
                assert(final(out)@ =~= old(out)@ + spec_expr_sql(*e));
                assert(final(params)@.map_values(|x: SqlVal| x@) =~= m0 + spec_expr_params(*e));
            }
        },
        Expr::IfNull(a, b) => {
            out.append("IFNULL(");
            push_expr(out, params, a);
            out.append(", ");
            push_expr(out, params, b);
            out.append(")");
            proof {
                assert(final(out)@ =~= old(out)@ + spec_expr_sql(*e));
                assert(final(params)@.map_values(|x: SqlVal| x@) =~= m0 + spec_expr_params(*e));
            }
        },
        Expr::CountDistinct(a) => {
            out.append("count(DISTINCT ");
            push_expr(out, params, a);
            out.append(")");
            proof {
                assert(final(out)@ =~= old(out)@ + spec_expr_sql(*e));
                assert(final(params)@.map_values(|x: SqlVal| x@) =~= m0 + spec_expr_params(*e));
            }
        },
        Expr::Sum(a) => {
            out.append("sum(");
            push_expr(out, params, a);
            out.append(")");
            proof {
                assert(final(out)@ =~= old(out)@ + spec_expr_sql(*e));
                assert(final(params)@.map_values(|x: SqlVal| x@) =~= m0 + spec_expr_params(*e));
            }
        },
    }
}

/// The view of a parameter list.
pub open spec fn spec_params_view(v: Seq<SqlVal>) -> Seq<SqlValV> {
    v.map_values(|x: SqlVal| x@)
}

/// Append the plain select items.
#[verifier::loop_isolation(false)]
fn push_sel(out: &mut String, params: &mut Vec<SqlVal>, es: &Vec<Expr>)
    requires
        forall|i: int| 0 <= i < es@.len() ==> spec_expr_names_wf(#[trigger] es@[i]),
    ensures
        final(out)@ == old(out)@ + spec_sel_sql(es@),
        spec_params_view(final(params)@) == spec_params_view(old(params)@) + spec_sel_params(es@),
{
    let ghost base = out@;
    let ghost pbase = spec_params_view(params@);
    let mut i: usize = 0;
    while i < es.len()
        invariant
            i <= es@.len(),
            out@ == base + spec_sel_sql(es@.take(i as int)),
            spec_params_view(params@) == pbase + spec_sel_params(es@.take(i as int)),
        decreases es@.len() - i,
    {
        out.append(", ");
        push_expr(out, params, &es[i]);
        proof {
            assert(es@.take(i + 1).drop_last() =~= es@.take(i as int));
            assert(es@.take(i + 1).last() == es@[i as int]);
            assert(out@ =~= base + spec_sel_sql(es@.take(i + 1)));
            assert(spec_params_view(params@) =~= pbase + spec_sel_params(es@.take(i + 1)));
        }
        i = i + 1;
    }
    proof {
        assert(es@.take(es@.len() as int) =~= es@);
    }
}

/// Append the keyed items, each named by its alias.
#[verifier::loop_isolation(false)]
fn push_keyed(out: &mut String, params: &mut Vec<SqlVal>, v: &Vec<(MyAlias, Expr)>)
    requires
        forall|i: int| 0 <= i < v@.len() ==> spec_expr_names_wf((#[trigger] v@[i]).1),
    ensures
        final(out)@ == old(out)@ + spec_keyed_sql(v@),
        spec_params_view(final(params)@) == spec_params_view(old(params)@) + spec_keyed_params(v@),
{
    let ghost base = out@;
    let ghost pbase = spec_params_view(params@);
    let mut i: usize = 0;
    while i < v.len()
        invariant
            i <= v@.len(),
            out@ == base + spec_keyed_sql(v@.take(i as int)),
            spec_params_view(params@) == pbase + spec_keyed_params(v@.take(i as int)),
        decreases v@.len() - i,
    {
        out.append(", ");
        push_expr(out, params, &v[i].1);
        out.append(" AS ");
        push_alias(out, v[i].0.id());
        proof {
            assert(v@.take(i + 1).drop_last() =~= v@.take(i as int));
            assert(v@.take(i + 1).last() == v@[i as int]);
            assert(out@ =~= base + spec_keyed_sql(v@.take(i + 1)));
            assert(spec_params_view(params@) =~= pbase + spec_keyed_params(v@.take(i + 1)));
        }
        i = i + 1;
    }
    proof {
        assert(v@.take(v@.len() as int) =~= v@);
    }
}

/// Append the filter conjunction.
#[verifier::loop_isolation(false)]
fn push_filters(out: &mut String, params: &mut Vec<SqlVal>, fs: &Vec<Expr>)
    requires
        forall|i: int| 0 <= i < fs@.len() ==> spec_expr_names_wf(#[trigger] fs@[i]),
    ensures
        final(out)@ == old(out)@ + spec_filters_sql(fs@),
        spec_params_view(final(params)@) == spec_params_view(old(params)@) + spec_filters_params(
            fs@,
        ),
{
    let ghost base = out@;
    let ghost pbase = spec_params_view(params@);
    let mut i: usize = 0;
    while i < fs.len()
        invariant
            i <= fs@.len(),
            out@ == base + spec_filters_sql(fs@.take(i as int)),
            spec_params_view(params@) == pbase + spec_filters_params(fs@.take(i as int)),
        decreases fs@.len() - i,
    {
        out.append(" AND ");
        push_expr(out, params, &fs[i]);
        proof {
            assert(fs@.take(i + 1).drop_last() =~= fs@.take(i as int));
            assert(fs@.take(i + 1).last() == fs@[i as int]);
            assert(out@ =~= base + spec_filters_sql(fs@.take(i + 1)));
            assert(spec_params_view(params@) =~= pbase + spec_filters_params(fs@.take(i + 1)));
        }
        i = i + 1;
    }
    proof {
        assert(fs@.take(fs@.len() as int) =~= fs@);
    }
}

/// The alias identities of keyed items.
fn keyed_ids(v: &Vec<(MyAlias, Expr)>) -> (r: Vec<u64>)
    ensures
        r@ == crate::plan::spec_keyed_aliases(v@),
{
    let mut out: Vec<u64> = Vec::new();
    let mut i: usize = 0;
    while i < v.len()
        invariant
            i <= v@.len(),
            out@.len() == i,
            forall|j: int| 0 <= j < i ==> out@[j] == (#[trigger] v@[j]).0.spec_id(),
        decreases v@.len() - i,
    {
        out.push(v[i].0.id());
        i = i + 1;
    }
    proof {
        assert(out@ =~= crate::plan::spec_keyed_aliases(v@));
    }
    out
}

/// Append a comma-separated list of alias names.
#[verifier::loop_isolation(false)]
fn push_alias_ids(out: &mut String, ids: &Vec<u64>)
    ensures
        final(out)@ == old(out)@ + spec_alias_list(ids@),
{
    let ghost base = out@;
    let mut i: usize = 0;
    while i < ids.len()
        invariant
            i <= ids@.len(),
            out@ == base + spec_alias_list(ids@.take(i as int)),
        decreases ids@.len() - i,
    {
        if i > 0 {
            out.append(", ");
        }
        push_alias(out, ids[i]);
        proof {
            assert(ids@.take(i + 1).drop_last() =~= ids@.take(i as int));
            assert(ids@.take(i + 1).last() == ids@[i as int]);
            assert(out@ =~= base + spec_alias_list(ids@.take(i + 1)));
        }
        i = i + 1;
    }
    proof {
        assert(ids@.take(ids@.len() as int) =~= ids@);
    }
}

/// Append the text and parameters of one source's join fragment.
#[verifier::rlimit(100)]
fn push_src(out: &mut String, params: &mut Vec<SqlVal>, s: &Source)
    requires
        spec_src_names_wf(*s),
    ensures
        final(out)@ == old(out)@ + spec_src_sql(*s),
        spec_params_view(final(params)@) == spec_params_view(old(params)@) + spec_src_params(*s),
    decreases *s,
{
    let ghost pbase = spec_params_view(params@);
    match s {
        Source::Table { name, alias } => {
            out.append(" JOIN ");
            push_quoted(out, name.as_str());
            out.append(" AS ");
            push_alias(out, alias.id());
            out.append(" ON 1");
            proof {
                assert(final(out)@ =~= old(out)@ + spec_src_sql(*s));
                assert(spec_params_view(final(params)@) =~= pbase + spec_src_params(*s));
            }
        },
        Source::Nested { alias, plan, on } => {
            out.append(" LEFT JOIN (");
            let empty_sel: Vec<Expr> = Vec::new();
            let lead = Expr::Lit(ConstVal::Int(1));
            compile_into(out, params, plan, &lead, &empty_sel);
            out.append(") AS ");
            push_alias(out, alias.id());
            out.append(" ON 1");
            let ghost base2 = out@;
            let ghost pbase2 = spec_params_view(params@);
            let mut i: usize = 0;
            while i < on.len()
                invariant
                    i <= on@.len(),
                    forall|k: int|
                        0 <= k < on@.len() ==> spec_expr_names_wf((#[trigger] on@[k]).1),
                    out@ == base2 + spec_on_sql(alias.spec_id(), on@.take(i as int)),
                    spec_params_view(params@) == pbase2 + spec_on_params(on@.take(i as int)),
                decreases on@.len() - i,
            {
                out.append(" AND ");
                push_alias(out, alias.id());
                out.append(".");
                push_alias(out, on[i].0.id());
                out.append(" = ");
                push_expr(out, params, &on[i].1);
                proof {
                    reveal_strlit(".");
                    assert(on@.take(i + 1).drop_last() =~= on@.take(i as int));
                    assert(on@.take(i + 1).last() == on@[i as int]);
                    assert(out@ =~= base2 + spec_on_sql(alias.spec_id(), on@.take(i + 1)));
                    assert(spec_params_view(params@) =~= pbase2 + spec_on_params(
                        on@.take(i + 1),
                    ));
                }
                i = i + 1;
            }
            proof {
                assert(on@.take(on@.len() as int) =~= on@);
                assert(empty_sel@ =~= Seq::<Expr>::empty());
                assert(final(out)@ =~= old(out)@ + spec_src_sql(*s));
                assert(spec_params_view(final(params)@) =~= pbase + spec_src_params(*s));
            }
        },
    }
}

/// Append the join list.
#[verifier::loop_isolation(false)]
fn push_srcs(out: &mut String, params: &mut Vec<SqlVal>, ss: &Vec<Source>)
    requires
        forall|i: int| 0 <= i < ss@.len() ==> spec_src_names_wf(#[trigger] ss@[i]),
    ensures
        final(out)@ == old(out)@ + spec_srcs_sql(ss@),
        spec_params_view(final(params)@) == spec_params_view(old(params)@) + spec_srcs_params(ss@),
    decreases ss@,
{
    let ghost base = out@;
    let ghost pbase = spec_params_view(params@);
    let mut i: usize = 0;
    while i < ss.len()
        invariant
            i <= ss@.len(),
            out@ == base + spec_srcs_sql(ss@.take(i as int)),
            spec_params_view(params@) == pbase + spec_srcs_params(ss@.take(i as int)),
        decreases ss@.len() - i,
    {
        proof {
            assert(decreases_to!(ss@ => ss@[i as int]));
        }
        push_src(out, params, &ss[i]);
        proof {
            assert(ss@.take(i + 1).drop_last() =~= ss@.take(i as int));
            assert(ss@.take(i + 1).last() == ss@[i as int]);
            assert(out@ =~= base + spec_srcs_sql(ss@.take(i + 1)));
            assert(spec_params_view(params@) =~= pbase + spec_srcs_params(ss@.take(i + 1)));
        }
        i = i + 1;
    }
    proof {
        assert(ss@.take(ss@.len() as int) =~= ss@);
    }
}

/// The projection segment of the statement.
pub open spec fn spec_head_sql(p: Plan, lead: Expr, sel: Seq<Expr>) -> Seq<char> {
    "SELECT "@ + spec_expr_sql(lead) + spec_sel_sql(sel) + spec_keyed_sql(p.group@)
        + spec_keyed_sql(p.aggr@) + spec_keyed_sql(p.sort@)
}

/// The parameters of the projection segment.
pub open spec fn spec_head_params(p: Plan, lead: Expr, sel: Seq<Expr>) -> Seq<SqlValV> {
    spec_expr_params(lead) + spec_sel_params(sel) + spec_keyed_params(p.group@)
        + spec_keyed_params(p.aggr@) + spec_keyed_params(p.sort@)
}

/// The source, filter, grouping and ordering segment of the statement.
pub open spec fn spec_tail_sql(p: Plan) -> Seq<char> {
    (if p.sources@.len() == 0 {
        Seq::<char>::empty()
    } else {
        " FROM (SELECT 1)"@ + spec_srcs_sql(p.sources@)
    }) + " WHERE 1"@ + spec_filters_sql(p.filters@) + (if p.group@.len() == 0 {
        Seq::<char>::empty()
    } else {
        " GROUP BY "@ + spec_alias_list(crate::plan::spec_keyed_aliases(p.group@))
    }) + (if p.group@.len() + p.sort@.len() == 0 {
        Seq::<char>::empty()
    } else {
        " ORDER BY "@ + spec_alias_list(
            crate::plan::spec_keyed_aliases(p.group@) + crate::plan::spec_keyed_aliases(p.sort@),
        )
    })
}

/// The parameters of the tail segment.
pub open spec fn spec_tail_params(p: Plan) -> Seq<SqlValV> {
    spec_srcs_params(p.sources@) + spec_filters_params(p.filters@)
}

/// The statement splits into its two segments.
proof fn lemma_select_split(p: Plan, lead: Expr, sel: Seq<Expr>)
    ensures
        spec_select_sql(p, lead, sel) == spec_head_sql(p, lead, sel) + spec_tail_sql(p),
        spec_select_params(p, lead, sel) == spec_head_params(p, lead, sel) + spec_tail_params(p),
{
    assert(spec_select_sql(p, lead, sel) =~= spec_head_sql(p, lead, sel) + spec_tail_sql(p));
    assert(spec_select_params(p, lead, sel) =~= spec_head_params(p, lead, sel) + spec_tail_params(
        p,
    ));
}

/// Append the projection segment.
fn push_head(out: &mut String, params: &mut Vec<SqlVal>, p: &Plan, lead: &Expr, sel: &Vec<Expr>)
    requires
        spec_plan_names_wf(*p),
        spec_expr_names_wf(*lead),
        forall|i: int| 0 <= i < sel@.len() ==> spec_expr_names_wf(#[trigger] sel@[i]),
    ensures
        final(out)@ == old(out)@ + spec_head_sql(*p, *lead, sel@),
        spec_params_view(final(params)@) == spec_params_view(old(params)@) + spec_head_params(
            *p,
            *lead,
            sel@,
        ),
{
    let ghost pbase = spec_params_view(params@);
    out.append("SELECT ");
    push_expr(out, params, lead);
    push_sel(out, params, sel);
    push_keyed(out, params, &p.group);
    push_keyed(out, params, &p.aggr);
    push_keyed(out, params, &p.sort);
    proof {
        assert(final(out)@ =~= old(out)@ + spec_head_sql(*p, *lead, sel@));
        assert(spec_params_view(final(params)@) =~= pbase + spec_head_params(*p, *lead, sel@));
    }
}

/// Append the tail segment.
#[verifier::rlimit(100)]
fn push_tail(out: &mut String, params: &mut Vec<SqlVal>, p: &Plan)
    requires
        spec_plan_names_wf(*p),
    ensures
        final(out)@ == old(out)@ + spec_tail_sql(*p),
        spec_params_view(final(params)@) == spec_params_view(old(params)@) + spec_tail_params(*p),
    decreases *p, 0int,
{
    let ghost pbase = spec_params_view(params@);
    if p.sources.len() > 0 {
        out.append(" FROM (SELECT 1)");
        proof {
            assert(decreases_to!(*p => p.sources));
            assert(decreases_to!(p.sources => p.sources@));
        }
        push_srcs(out, params, &p.sources);
    }
    out.append(" WHERE 1");
    push_filters(out, params, &p.filters);
    if p.group.len() > 0 {
        out.append(" GROUP BY ");
        let g = keyed_ids(&p.group);
        push_alias_ids(out, &g);
    }
    if p.group.len() > 0 || p.sort.len() > 0 {
        out.append(" ORDER BY ");
        let mut gs = keyed_ids(&p.group);
        let so = keyed_ids(&p.sort);
        let mut i: usize = 0;
        while i < so.len()
            invariant
                i <= so@.len(),
                so@ == crate::plan::spec_keyed_aliases(p.sort@),
                gs@ =~= crate::plan::spec_keyed_aliases(p.group@) + so@.take(i as int),
            decreases so@.len() - i,
        {
            gs.push(so[i]);
            i = i + 1;
        }
        proof {
            assert(so@.take(so@.len() as int) =~= so@);
            assert(gs@ =~= crate::plan::spec_keyed_aliases(p.group@)
                + crate::plan::spec_keyed_aliases(p.sort@));
        }
        push_alias_ids(out, &gs);
    }
    proof {
        assert(final(out)@ =~= old(out)@ + spec_tail_sql(*p));
        assert(spec_params_view(final(params)@) =~= pbase + spec_tail_params(*p));
    }
}

/// Append the complete statement for `p` with extra select items `sel`.
fn compile_into(out: &mut String, params: &mut Vec<SqlVal>, p: &Plan, lead: &Expr, sel: &Vec<Expr>)
    requires
        spec_plan_names_wf(*p),
        spec_expr_names_wf(*lead),
        forall|i: int| 0 <= i < sel@.len() ==> spec_expr_names_wf(#[trigger] sel@[i]),
    ensures
        final(out)@ == old(out)@ + spec_select_sql(*p, *lead, sel@),
        spec_params_view(final(params)@) == spec_params_view(old(params)@) + spec_select_params(
            *p,
            *lead,
            sel@,
        ),
    decreases *p, 1int,
{
    let ghost pbase = spec_params_view(params@);
    push_head(out, params, p, lead, sel);
    push_tail(out, params, p);
    proof {
        lemma_select_split(*p, *lead, sel@);
        assert(final(out)@ =~= old(out)@ + spec_select_sql(*p, *lead, sel@));
        assert(spec_params_view(final(params)@) =~= pbase + spec_select_params(*p, *lead, sel@));
    }
}

/// Compile a plan with extra select items to one statement: exactly the
/// text and bound parameters of the specification.
pub fn compile_select(p: &Plan, lead: &Expr, sel: &Vec<Expr>) -> (r: (String, Vec<SqlVal>))
    requires
        spec_plan_names_wf(*p),
        spec_expr_names_wf(*lead),
        forall|i: int| 0 <= i < sel@.len() ==> spec_expr_names_wf(#[trigger] sel@[i]),
    ensures
        r.0@ == spec_select_sql(*p, *lead, sel@),
        spec_params_view(r.1@) == spec_select_params(*p, *lead, sel@),
{
    let mut out = String::new();
    let mut params: Vec<SqlVal> = Vec::new();
    compile_into(&mut out, &mut params, p, lead, sel);
    proof {
        assert(out@ =~= spec_select_sql(*p, *lead, sel@));
        assert(spec_params_view(params@) =~= spec_select_params(*p, *lead, sel@));
    }
    (out, params)
}

/// The rendered expressions of a projection list.
pub open spec fn spec_typed_exprs(v: Seq<Typed>) -> Seq<Expr> {
    v.map_values(|t: Typed| t.spec_expr())
}

/// Whether every projection item may be used with this plan: built for
/// this statement, over valid column names, referencing only aliases in
/// scope.
pub open spec fn spec_sel_ok(rows: Rows, v: Seq<Typed>) -> bool {
    forall|i: int|
        0 <= i < v.len() ==> spec_scope_ok((#[trigger] v[i]).spec_stmt(), rows.spec_stmt())
            && spec_expr_names_wf(v[i].spec_expr()) && spec_aliases_allowed(
            v[i].spec_expr(),
            rows.spec_outer() + spec_top_aliases(rows.spec_plan()),
        )
}

/// Validate a projection list against the plan and hand back the bare
/// expression trees.
fn check_select(rows: &Rows, select: Vec<Typed>) -> (r: Result<Vec<Expr>, Error>)
    requires
        rows.inv(),
    ensures
        r is Ok <==> spec_sel_ok(*rows, select@),
        r matches Ok(es) ==> es@ == spec_typed_exprs(select@),
{
    let ghost sv = select@;
    let total = select.len();
    let mut es: Vec<Expr> = Vec::new();
    let mut rest = select;
    let mut i: usize = 0;
    // consume the items front to back, validating each
    while rest.len() > 0
        invariant
            rows.inv(),
            sv == select@,
            sv.len() == total,
            i + rest@.len() == sv.len(),
            rest@ =~= sv.skip(i as int),
            es@.len() == i,
            forall|j: int| 0 <= j < i ==> (#[trigger] es@[j]) == sv[j].spec_expr(),
            forall|j: int|
                0 <= j < i ==> spec_scope_ok((#[trigger] sv[j]).spec_stmt(), rows.spec_stmt())
                    && spec_expr_names_wf(sv[j].spec_expr()) && spec_aliases_allowed(
                    sv[j].spec_expr(),
                    rows.spec_outer() + spec_top_aliases(rows.spec_plan()),
                ),
        decreases rest@.len(),
    {
        let t = rest.remove(0);
        proof {
            assert(sv.skip(i as int)[0] == sv[i as int]);
            assert(t == sv[i as int]);
            assert(rest@ =~= sv.skip(i + 1));
        }
        match rows.check_expr(&t, true) {
            Ok(_) => {},
            Err(e) => {
                proof {
                    if spec_sel_ok(*rows, sv) {
                        assert(spec_scope_ok((#[trigger] sv[i as int]).spec_stmt(), rows.spec_stmt())
                            && spec_expr_names_wf(sv[i as int].spec_expr()) && spec_aliases_allowed(
                            sv[i as int].spec_expr(),
                            rows.spec_outer() + spec_top_aliases(rows.spec_plan()),
                        ));
                        assert(false);
                    }
                }
                return Err(e);
            },
        }
        es.push(t.expr);
        i = i + 1;
    }
    proof {
        assert(i == sv.len());
        assert forall|j: int| 0 <= j < sv.len() implies es@[j] == spec_typed_exprs(sv)[j] by {
            assert(es@[j] == sv[j].spec_expr());
        };
        assert(es@ =~= spec_typed_exprs(sv));
    }
    Ok(es)
}

/// Compile the statement a plan and projection list would run, without
/// executing it: exactly the text and bound parameters of the
/// specification.  Rejected exactly when a projection item does not
/// belong to this plan.
pub fn show_sql(rows: &Rows, select: Vec<Typed>) -> (r: Result<(String, Vec<SqlVal>), Error>)
    requires
        rows.inv(),
    ensures
        r is Ok <==> spec_sel_ok(*rows, select@),
        r matches Ok(p) ==> p.0@ == spec_select_sql(
            rows.spec_plan(),
            Expr::Lit(ConstVal::Int(1)),
            spec_typed_exprs(select@),
        ) && spec_params_view(p.1@) == spec_select_params(
            rows.spec_plan(),
            Expr::Lit(ConstVal::Int(1)),
            spec_typed_exprs(select@),
        ),
{
    let es = check_select(rows, select)?;
    proof {
        crate::plan::lemma_rows_names_wf(*rows);
    }
    let lead = Expr::Lit(ConstVal::Int(1));
    let (sql, params) = compile_select(rows.plan_ref(), &lead, &es);
    Ok((sql, params))
}

/// The top level query type: a select plan paired with the store
/// connection that will run it.
pub struct Query<'l> {
    pub(crate) q: Rows,
    pub(crate) conn: &'l rusqlite::Connection,
}

impl<'l> Query<'l> {
    /// The plan under construction, for specifications.
    pub closed spec fn spec_rows(self) -> Rows {
        self.q
    }

    /// A query over `conn` building on `rows`; reached through the store
    /// handle, which is the sole issuer of statement tokens for plans it
    /// runs.
    pub(crate) fn new(conn: &'l rusqlite::Connection, rows: Rows) -> (r: Query<'l>)
        ensures
            r.spec_rows() == rows,
    {
        Query { q: rows, conn }
    }

    /// The plan builder: join, filter and aggregate through it.
    pub fn rows(&mut self) -> (r: &mut Rows)
        ensures
            *r == old(self).spec_rows(),
            final(self).spec_rows() == *final(r),
    {
        &mut self.q
    }

    /// Compile the plan with the given projection and run it, returning
    /// one row of plain values per requested item and result row, in the
    /// engine's row order (unspecified unless sort keys were declared).
    /// Rejected before execution exactly when a projection item does not
    /// belong to this plan; a store failure is reported as
    /// [`Error::Sql`].
    pub fn into_vec(self, select: Vec<Typed>) -> (r: Result<Vec<Vec<SqlVal>>, Error>)
        requires
            self.spec_rows().inv(),
        ensures
            !spec_sel_ok(self.spec_rows(), select@) ==> r is Err,
            r matches Ok(rows) ==> forall|i: int|
                0 <= i < rows@.len() ==> (#[trigger] rows@[i])@.len() == select@.len(),
            r matches Err(e) ==> (e matches Error::Sql(_) || e matches Error::BadRow
                || !spec_sel_ok(self.spec_rows(), select@)),
    {
        let n = select.len();
        let es = check_select(&self.q, select)?;
        proof {
            crate::plan::lemma_rows_names_wf(self.q);
        }
        let lead = Expr::Lit(ConstVal::Int(1));
        let (sql, params) = compile_select(self.q.plan_ref(), &lead, &es);
        let raw = match raw_query(self.conn, sql.as_str(), &params) {
            Ok(raw) => raw,
            Err(e) => {
                return Err(Error::Sql(e));
            },
        };
        // strip the constant leading projection from every row
        let mut out: Vec<Vec<SqlVal>> = Vec::new();
        let mut rest = raw;
        while rest.len() > 0
            invariant
                n == select@.len(),
                forall|i: int| 0 <= i < out@.len() ==> (#[trigger] out@[i])@.len() == n,
            decreases rest@.len(),
        {
            let mut row = rest.remove(0);
            if row.len() == 0 || row.len() - 1 < n {
                return Err(Error::BadRow);
            }
            let _lead = row.remove(0);
            // grouping keys, aggregates and sort keys are projected after
            // the requested items; drop them
            while row.len() > n
                invariant
                    row@.len() >= n,
                decreases row@.len(),
            {
                let _ = row.pop();
            }
            out.push(row);
        }
        Ok(out)
    }
}

} // verus!
