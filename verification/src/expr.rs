//! The typed scalar expression algebra.
//!
//! An [`Expr`] is the rendered tree that the SQL emitter consumes.  A
//! [`Typed`] pairs such a tree with its semantic type tag and the statement
//! token of the scope it was built under.  Combining nodes checks the tags
//! structurally and merges the tokens; a mismatch is a construction-time
//! error, reported before any SQL is emitted.

use vstd::prelude::*;
use crate::alias::{Field, FieldAlias, MyAlias};
use crate::Error;

verus! {

/// A semantic base type of an expression or column.
///
/// `RowId(t)` is the identity of a row of table `t`; in the store it is the
/// table's integer primary key.  `Real` tags floating-point columns; the
/// algebra carries no floating-point constants, so `Real` values only flow
/// between store columns.
#[derive(Debug, PartialEq, Eq)]
pub enum BaseTyp {
    Int,
    Real,
    Bool,
    Text,
    RowId(String),
}

/// A semantic type tag: a base type plus nullability.
#[derive(Debug, PartialEq, Eq)]
pub struct Typ {
    pub base: BaseTyp,
    pub nullable: bool,
}

/// Spec-level mirror of [`BaseTyp`].
pub ghost enum BaseTypV {
    Int,
    Real,
    Bool,
    Text,
    RowId(Seq<char>),
}

/// Spec-level mirror of [`Typ`].
pub ghost struct TypV {
    pub base: BaseTypV,
    pub nullable: bool,
}

impl View for BaseTyp {
    type V = BaseTypV;

    open spec fn view(&self) -> BaseTypV {
        match self {
            BaseTyp::Int => BaseTypV::Int,
            BaseTyp::Real => BaseTypV::Real,
            BaseTyp::Bool => BaseTypV::Bool,
            BaseTyp::Text => BaseTypV::Text,
            BaseTyp::RowId(t) => BaseTypV::RowId(t@),
        }
    }
}

impl View for Typ {
    type V = TypV;

    open spec fn view(&self) -> TypV {
        TypV { base: self.base@, nullable: self.nullable }
    }
}

/// A constant value, possibly optional; an absent optional renders as NULL.
#[derive(Debug)]
pub enum ConstVal {
    Int(i64),
    Bool(bool),
    Text(String),
    OptInt(Option<i64>),
    OptBool(Option<bool>),
    OptText(Option<String>),
}

/// The generic expression tree consumed by the SQL emitter.
#[derive(Debug)]
pub enum Expr {
    /// A reference to a column of a joined source.
    Col(FieldAlias),
    /// A constant, emitted as a bound parameter.
    Lit(ConstVal),
    /// Integer addition.
    Add(Box<Expr>, Box<Expr>),
    /// Comparison against an integer constant.
    Lt(Box<Expr>, i64),
    /// Structural equality of two values of one type.
    Eq(Box<Expr>, Box<Expr>),
    /// Logical negation.
    Not(Box<Expr>),
    /// Coalesce an optional value with a default of the inner type.
    IfNull(Box<Expr>, Box<Expr>),
    /// Count of distinct values of the operand, over an aggregated plan.
    CountDistinct(Box<Expr>),
    /// Sum of the operand, over an aggregated plan; NULL when no rows match.
    Sum(Box<Expr>),
}

/// The semantic type of a constant.
pub open spec fn spec_const_typ(v: ConstVal) -> TypV {
    match v {
        ConstVal::Int(_) => TypV { base: BaseTypV::Int, nullable: false },
        ConstVal::Bool(_) => TypV { base: BaseTypV::Bool, nullable: false },
        ConstVal::Text(_) => TypV { base: BaseTypV::Text, nullable: false },
        ConstVal::OptInt(_) => TypV { base: BaseTypV::Int, nullable: true },
        ConstVal::OptBool(_) => TypV { base: BaseTypV::Bool, nullable: true },
        ConstVal::OptText(_) => TypV { base: BaseTypV::Text, nullable: true },
    }
}

/// The set of table aliases an expression references.  The plan invariant
/// demands that every one of them was produced by a source of the same plan
/// or of an enclosing plan.
pub open spec fn spec_expr_aliases(e: Expr) -> Set<u64>
    decreases e,
{
    match e {
        Expr::Col(f) => Set::empty().insert(f.table.spec_id()),
        Expr::Lit(_) => Set::empty(),
        Expr::Add(a, b) => spec_expr_aliases(*a).union(spec_expr_aliases(*b)),
        Expr::Lt(a, _) => spec_expr_aliases(*a),
        Expr::Eq(a, b) => spec_expr_aliases(*a).union(spec_expr_aliases(*b)),
        Expr::Not(a) => spec_expr_aliases(*a),
        Expr::IfNull(a, b) => spec_expr_aliases(*a).union(spec_expr_aliases(*b)),
        Expr::CountDistinct(a) => spec_expr_aliases(*a),
        Expr::Sum(a) => spec_expr_aliases(*a),
    }
}

/// Whether every physical column name mentioned by `e` is a valid
/// identifier, so that the emitter can always quote it.
pub open spec fn spec_expr_names_wf(e: Expr) -> bool
    decreases e,
{
    match e {
        Expr::Col(f) => match f.col {
            Field::Str(s) => crate::render::spec_is_ident(s@),
            Field::U64(_) => true,
        },
        Expr::Lit(_) => true,
        Expr::Add(a, b) => spec_expr_names_wf(*a) && spec_expr_names_wf(*b),
        Expr::Lt(a, _) => spec_expr_names_wf(*a),
        Expr::Eq(a, b) => spec_expr_names_wf(*a) && spec_expr_names_wf(*b),
        Expr::Not(a) => spec_expr_names_wf(*a),
        Expr::IfNull(a, b) => spec_expr_names_wf(*a) && spec_expr_names_wf(*b),
        Expr::CountDistinct(a) => spec_expr_names_wf(*a),
        Expr::Sum(a) => spec_expr_names_wf(*a),
    }
}

/// Check that every physical column name mentioned by `e` is a valid
/// identifier.
pub fn expr_names_ok(e: &Expr) -> (r: bool)
    ensures
        r == spec_expr_names_wf(*e),
    decreases *e,
{
    match e {
        Expr::Col(f) => match &f.col {
            Field::Str(s) => crate::render::check_ident(s.as_str()),
            Field::U64(_) => true,
        },
        Expr::Lit(_) => true,
        Expr::Add(a, b) => expr_names_ok(a) && expr_names_ok(b),
        Expr::Lt(a, _) => expr_names_ok(a),
        Expr::Eq(a, b) => expr_names_ok(a) && expr_names_ok(b),
        Expr::Not(a) => expr_names_ok(a),
        Expr::IfNull(a, b) => expr_names_ok(a) && expr_names_ok(b),
        Expr::CountDistinct(a) => expr_names_ok(a),
        Expr::Sum(a) => expr_names_ok(a),
    }
}

/// True when every alias the expression references is in `allowed`.
pub open spec fn spec_aliases_allowed(e: Expr, allowed: Seq<u64>) -> bool {
    spec_expr_aliases(e).subset_of(allowed.to_set())
}

/// Check that `v` occurs in `allowed`.
pub fn contains_u64(allowed: &Vec<u64>, v: u64) -> (r: bool)
    ensures
        r == allowed@.to_set().contains(v),
{
    let mut i: usize = 0;
    let mut found = false;
    while i < allowed.len() && !found
        invariant
            i <= allowed@.len(),
            found ==> allowed@.to_set().contains(v),
            !found ==> forall|j: int| 0 <= j < i ==> allowed@[j] != v,
        decreases allowed@.len() - i + (if found { 0int } else { 1int }),
    {
        if allowed[i] == v {
            found = true;
            proof {
                assert(allowed@.contains(v));
            }
        } else {
            i = i + 1;
        }
    }
    proof {
        if !found {
            assert(forall|j: int| 0 <= j < allowed@.len() ==> allowed@[j] != v);
        }
    }
    found
}

/// Check that every alias referenced by `e` occurs in `allowed`.
pub fn aliases_allowed(e: &Expr, allowed: &Vec<u64>) -> (r: bool)
    ensures
        r == spec_aliases_allowed(*e, allowed@),
    decreases *e,
{
    match e {
        Expr::Col(f) => contains_u64(allowed, f.table.id()),
        Expr::Lit(_) => true,
        Expr::Add(a, b) => aliases_allowed(a, allowed) && aliases_allowed(b, allowed),
        Expr::Lt(a, _) => aliases_allowed(a, allowed),
        Expr::Eq(a, b) => aliases_allowed(a, allowed) && aliases_allowed(b, allowed),
        Expr::Not(a) => aliases_allowed(a, allowed),
        Expr::IfNull(a, b) => aliases_allowed(a, allowed) && aliases_allowed(b, allowed),
        Expr::CountDistinct(a) => aliases_allowed(a, allowed),
        Expr::Sum(a) => aliases_allowed(a, allowed),
    }
}

/// A rendered expression with its semantic type and scope token.
///
/// `stmt` is the token of the statement scope the expression was built
/// under; `None` for constants, which may be used in any scope.  Every API
/// that combines expressions or inserts one into a plan checks the token, so
/// a node built while compiling one statement can never be smuggled into
/// another.
#[derive(Debug)]
pub struct Typed {
    pub expr: Expr,
    pub typ: Typ,
    pub stmt: Option<u64>,
}

/// Whether two scope tokens may be combined, and the token of the result.
pub open spec fn spec_scope_join(a: Option<u64>, b: Option<u64>) -> Option<Option<u64>> {
    match (a, b) {
        (Option::None, y) => Option::Some(y),
        (x, Option::None) => Option::Some(x),
        (Option::Some(x), Option::Some(y)) => if x == y {
            Option::Some(Option::Some(x))
        } else {
            Option::None
        },
    }
}

/// Whether an expression of token `t` may be used in a plan of statement
/// token `stmt`.
pub open spec fn spec_scope_ok(t: Option<u64>, stmt: u64) -> bool {
    t matches Option::Some(x) ==> x == stmt
}

impl Typed {
    /// The rendered expression tree, for specifications.
    pub open spec fn spec_expr(self) -> Expr {
        self.expr
    }

    /// The semantic type tag, for specifications.
    pub open spec fn spec_typ(self) -> Typ {
        self.typ
    }

    /// The scope token, for specifications.
    pub open spec fn spec_stmt(self) -> Option<u64> {
        self.stmt
    }

    /// The semantic type tag.
    pub fn typ(&self) -> (r: Typ)
        ensures
            r@ == self.spec_typ()@,
    {
        typ_dup(&self.typ)
    }

    /// `self + rhs`; defers the structural type check to
    /// [`MyAdd::build_expr`].
    pub fn add(self, rhs: Typed) -> (r: MyAdd)
        ensures
            r.0 == self,
            r.1 == rhs,
    {
        MyAdd(self, rhs)
    }

    /// `self < rhs`; defers the type check to [`MyLt::build_expr`].
    pub fn lt(self, rhs: i64) -> (r: MyLt)
        ensures
            r.0 == self,
            r.1 == rhs,
    {
        MyLt(self, rhs)
    }

    /// `self == rhs`; defers the structural type check to
    /// [`MyEq::build_expr`].
    pub fn eq(self, rhs: Typed) -> (r: MyEq)
        ensures
            r.0 == self,
            r.1 == rhs,
    {
        MyEq(self, rhs)
    }

    /// `!self`; defers the type check to [`MyNot::build_expr`].
    pub fn not(self) -> (r: MyNot)
        ensures
            r.0 == self,
    {
        MyNot(self)
    }

    /// `self` coalesced with `rhs`; defers the type check to
    /// [`UnwrapOr::build_expr`].
    pub fn unwrap_or(self, rhs: Typed) -> (r: UnwrapOr)
        ensures
            r.0 == self,
            r.1 == rhs,
    {
        UnwrapOr(self, rhs)
    }

    /// A column reference.
    pub(crate) fn col(table: MyAlias, col: Field, typ: Typ, stmt: u64) -> (r: Typed)
        ensures
            r.spec_expr() == Expr::Col(FieldAlias { table, col }),
            r.spec_typ() == typ,
            r.spec_stmt() == Option::Some(stmt),
    {
        Typed { expr: Expr::Col(FieldAlias { table, col }), typ, stmt: Some(stmt) }
    }
}

/// Join the scope tokens of two operands, or fail with a scope mismatch.
fn scope_join(a: &Option<u64>, b: &Option<u64>) -> (r: Result<Option<u64>, Error>)
    ensures
        match spec_scope_join(*a, *b) {
            Option::Some(t) => r == Result::<Option<u64>, Error>::Ok(t),
            Option::None => r == Result::<Option<u64>, Error>::Err(Error::ScopeMismatch),
        },
{
    match (a, b) {
        (None, y) => Ok(*y),
        (x, None) => Ok(*x),
        (Some(x), Some(y)) => {
            if *x == *y {
                Ok(Some(*x))
            } else {
                Err(Error::ScopeMismatch)
            }
        },
    }
}

/// An equal copy of a base type tag.
pub fn base_typ_dup(b: &BaseTyp) -> (r: BaseTyp)
    ensures
        r@ == b@,
{
    match b {
        BaseTyp::Int => BaseTyp::Int,
        BaseTyp::Real => BaseTyp::Real,
        BaseTyp::Bool => BaseTyp::Bool,
        BaseTyp::Text => BaseTyp::Text,
        BaseTyp::RowId(t) => BaseTyp::RowId(t.clone()),
    }
}

/// An equal copy of a type tag.
pub fn typ_dup(t: &Typ) -> (r: Typ)
    ensures
        r@ == t@,
{
    Typ { base: base_typ_dup(&t.base), nullable: t.nullable }
}

/// Structural equality of type tags.
pub fn typ_eq(a: &Typ, b: &Typ) -> (r: bool)
    ensures
        r == (a@ == b@),
{
    let base_ok = match (&a.base, &b.base) {
        (BaseTyp::Int, BaseTyp::Int) => true,
        (BaseTyp::Real, BaseTyp::Real) => true,
        (BaseTyp::Bool, BaseTyp::Bool) => true,
        (BaseTyp::Text, BaseTyp::Text) => true,
        (BaseTyp::RowId(x), BaseTyp::RowId(y)) => *x == *y,
        _ => false,
    };
    base_ok && a.nullable == b.nullable
}

/// Integer addition node.
pub struct MyAdd(pub Typed, pub Typed);

/// Logical negation node.
pub struct MyNot(pub Typed);

/// Less-than-constant comparison node.
pub struct MyLt(pub Typed, pub i64);

/// Equality node.
pub struct MyEq(pub Typed, pub Typed);

/// Coalescing node: an optional value with a default of the inner type.
pub struct UnwrapOr(pub Typed, pub Typed);

/// A constant expression node.
pub struct Const(pub ConstVal);

/// The non-nullable integer tag.
pub open spec fn spec_int_typ() -> TypV {
    TypV { base: BaseTypV::Int, nullable: false }
}

/// The non-nullable boolean tag.
pub open spec fn spec_bool_typ() -> TypV {
    TypV { base: BaseTypV::Bool, nullable: false }
}

impl MyAdd {
    /// Render the node.  Succeeds exactly when both operands are
    /// non-nullable integers from compatible scopes.
    pub fn build_expr(self) -> (r: Result<Typed, Error>)
        ensures
            ({
                let ok = self.0.spec_typ()@ == spec_int_typ() && self.1.spec_typ()@ == spec_int_typ()
                    && spec_scope_join(self.0.spec_stmt(), self.1.spec_stmt()) is Some;
                &&& r is Ok <==> ok
                &&& r matches Ok(t) ==> {
                    &&& t.spec_expr() == Expr::Add(
                        Box::new(self.0.spec_expr()),
                        Box::new(self.1.spec_expr()),
                    )
                    &&& t.spec_typ()@ == spec_int_typ()
                    &&& Option::Some(t.spec_stmt()) == spec_scope_join(
                        self.0.spec_stmt(),
                        self.1.spec_stmt(),
                    )
                }
            }),
    {
        let MyAdd(a, b) = self;
        let int_t = Typ { base: BaseTyp::Int, nullable: false };
        if !typ_eq(&a.typ, &int_t) || !typ_eq(&b.typ, &int_t) {
            return Err(Error::TypeMismatch);
        }
        let stmt = scope_join(&a.stmt, &b.stmt)?;
        Ok(Typed { expr: Expr::Add(Box::new(a.expr), Box::new(b.expr)), typ: int_t, stmt })
    }
}

impl MyLt {
    /// Render the node.  Succeeds exactly when the operand is a
    /// non-nullable integer.
    pub fn build_expr(self) -> (r: Result<Typed, Error>)
        ensures
            r is Ok <==> self.0.spec_typ()@ == spec_int_typ(),
            r matches Ok(t) ==> {
                &&& t.spec_expr() == Expr::Lt(Box::new(self.0.spec_expr()), self.1)
                &&& t.spec_typ()@ == spec_bool_typ()
                &&& t.spec_stmt() == self.0.spec_stmt()
            },
    {
        let MyLt(a, c) = self;
        let int_t = Typ { base: BaseTyp::Int, nullable: false };
        if !typ_eq(&a.typ, &int_t) {
            return Err(Error::TypeMismatch);
        }
        Ok(Typed {
            expr: Expr::Lt(Box::new(a.expr), c),
            typ: Typ { base: BaseTyp::Bool, nullable: false },
            stmt: a.stmt,
        })
    }
}

impl MyEq {
    /// Render the node.  Succeeds exactly when both operands carry the same
    /// non-nullable type tag and come from compatible scopes.
    pub fn build_expr(self) -> (r: Result<Typed, Error>)
        ensures
            ({
                let ok = self.0.spec_typ()@ == self.1.spec_typ()@ && !self.0.spec_typ().nullable
                    && spec_scope_join(self.0.spec_stmt(), self.1.spec_stmt()) is Some;
                &&& r is Ok <==> ok
                &&& r matches Ok(t) ==> {
                    &&& t.spec_expr() == Expr::Eq(
                        Box::new(self.0.spec_expr()),
                        Box::new(self.1.spec_expr()),
                    )
                    &&& t.spec_typ()@ == spec_bool_typ()
                    &&& Option::Some(t.spec_stmt()) == spec_scope_join(
                        self.0.spec_stmt(),
                        self.1.spec_stmt(),
                    )
                }
            }),
    {
        let MyEq(a, b) = self;
        if !typ_eq(&a.typ, &b.typ) || a.typ.nullable {
            return Err(Error::TypeMismatch);
        }
        let stmt = scope_join(&a.stmt, &b.stmt)?;
        Ok(Typed {
            expr: Expr::Eq(Box::new(a.expr), Box::new(b.expr)),
            typ: Typ { base: BaseTyp::Bool, nullable: false },
            stmt,
        })
    }
}

impl MyNot {
    /// Render the node.  Succeeds exactly when the operand is a
    /// non-nullable boolean.
    pub fn build_expr(self) -> (r: Result<Typed, Error>)
        ensures
            r is Ok <==> self.0.spec_typ()@ == spec_bool_typ(),
            r matches Ok(t) ==> {
                &&& t.spec_expr() == Expr::Not(Box::new(self.0.spec_expr()))
                &&& t.spec_typ()@ == spec_bool_typ()
                &&& t.spec_stmt() == self.0.spec_stmt()
            },
    {
        let MyNot(a) = self;
        let bool_t = Typ { base: BaseTyp::Bool, nullable: false };
        if !typ_eq(&a.typ, &bool_t) {
            return Err(Error::TypeMismatch);
        }
        Ok(Typed { expr: Expr::Not(Box::new(a.expr)), typ: bool_t, stmt: a.stmt })
    }
}

impl UnwrapOr {
    /// Render the node.  Succeeds exactly when the first operand is
    /// nullable, the default is non-nullable of the same base type, and the
    /// scopes are compatible.
    pub fn build_expr(self) -> (r: Result<Typed, Error>)
        ensures
            ({
                let ok = self.0.spec_typ().nullable && !self.1.spec_typ().nullable
                    && self.0.spec_typ()@.base == self.1.spec_typ()@.base
                    && spec_scope_join(self.0.spec_stmt(), self.1.spec_stmt()) is Some;
                &&& r is Ok <==> ok
                &&& r matches Ok(t) ==> {
                    &&& t.spec_expr() == Expr::IfNull(
                        Box::new(self.0.spec_expr()),
                        Box::new(self.1.spec_expr()),
                    )
                    &&& t.spec_typ() == self.1.spec_typ()
                    &&& Option::Some(t.spec_stmt()) == spec_scope_join(
                        self.0.spec_stmt(),
                        self.1.spec_stmt(),
                    )
                }
            }),
    {
        let UnwrapOr(a, b) = self;
        let a_base = Typ { base: base_typ_dup(&a.typ.base), nullable: false };
        if !a.typ.nullable || b.typ.nullable || !typ_eq(&a_base, &b.typ) {
            return Err(Error::TypeMismatch);
        }
        let stmt = scope_join(&a.stmt, &b.stmt)?;
        Ok(Typed { expr: Expr::IfNull(Box::new(a.expr), Box::new(b.expr)), typ: b.typ, stmt })
    }
}

impl Const {
    /// A constant node holding `val`.
    pub fn new(val: ConstVal) -> (r: Const)
        ensures
            r.0 == val,
    {
        Const(val)
    }

    /// Render the node; constants always succeed and fit any scope.
    pub fn build_expr(self) -> (r: Typed)
        ensures
            r.spec_expr() == Expr::Lit(self.0),
            r.spec_typ()@ == spec_const_typ(self.0),
            r.spec_stmt() is None,
    {
        let typ = match &self.0 {
            ConstVal::Int(_) => Typ { base: BaseTyp::Int, nullable: false },
            ConstVal::Bool(_) => Typ { base: BaseTyp::Bool, nullable: false },
            ConstVal::Text(_) => Typ { base: BaseTyp::Text, nullable: false },
            ConstVal::OptInt(_) => Typ { base: BaseTyp::Int, nullable: true },
            ConstVal::OptBool(_) => Typ { base: BaseTyp::Bool, nullable: true },
            ConstVal::OptText(_) => Typ { base: BaseTyp::Text, nullable: true },
        };
        Typed { expr: Expr::Lit(self.0), typ, stmt: None }
    }
}

} // verus!
