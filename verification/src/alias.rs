//! Identifiers for generated tables and columns.
//!
//! Every source joined into a select plan, and every generated output column,
//! is named by a [`MyAlias`]: a numeric identity issued by a [`Scope`].  A
//! scope is created fresh for each top-level statement, so aliases never leak
//! between unrelated statements, and within one scope the issued identities
//! are strictly increasing, hence pairwise distinct.

use vstd::prelude::*;

verus! {

/// Upper bound on identifiers a scope may issue; leaves room for any
/// realistic statement while keeping increments free of overflow.
pub const MAX_ALIAS: u64 = 0xffff_ffff;

/// Issues identifiers unique within one top-level statement.
///
/// Each statement (query or migration step) gets its own scope; the `stmt`
/// token distinguishes expressions built for different scopes.
pub struct Scope {
    stmt: u64,
    next: u64,
}

/// A process-opaque numeric identity naming a generated table or column.
#[derive(Debug, Clone, Copy, PartialEq, Eq, Structural)]
pub struct MyAlias {
    id: u64,
}

impl MyAlias {
    /// The numeric identity, for specifications.
    pub closed spec fn spec_id(self) -> u64 {
        self.id
    }

    /// Issue a fresh alias from `scope`; distinct from every alias the
    /// scope issued before.
    pub fn new(scope: &mut Scope) -> (r: Option<MyAlias>)
        ensures
            old(scope).spec_next() < MAX_ALIAS ==> (r matches Some(a)
                && a.spec_id() == old(scope).spec_next()),
            old(scope).spec_next() >= MAX_ALIAS ==> r is None,
            r is Some ==> final(scope).spec_next() == old(scope).spec_next() + 1,
            r is None ==> *final(scope) == *old(scope),
            final(scope).spec_stmt() == old(scope).spec_stmt(),
    {
        if scope.next < MAX_ALIAS {
            let id = scope.next;
            scope.next = scope.next + 1;
            Some(MyAlias { id })
        } else {
            None
        }
    }

    /// The numeric identity.
    pub fn id(self) -> (r: u64)
        ensures
            r == self.spec_id(),
    {
        self.id
    }
}

impl Scope {
    /// A fresh scope for one top-level statement, carrying the caller's
    /// statement token.
    pub fn new(stmt: u64) -> (r: Scope)
        ensures
            r.spec_stmt() == stmt,
            r.spec_next() == 0,
    {
        Scope { stmt, next: 0 }
    }

    /// The statement token this scope was created for.
    pub closed spec fn spec_stmt(self) -> u64 {
        self.stmt
    }

    /// The next identity to be issued.
    pub closed spec fn spec_next(self) -> u64 {
        self.next
    }

    /// The statement token.
    pub fn stmt(&self) -> (r: u64)
        ensures
            r == self.spec_stmt(),
    {
        self.stmt
    }
}

/// Names one column of one joined source: either a physical column of a
/// table (by name) or a generated output of a nested plan (by alias).
#[derive(Debug, Clone)]
pub enum Field {
    U64(MyAlias),
    Str(String),
}

/// A field reference: the alias of the source it lives on, and the column.
/// Equality is structural.
#[derive(Debug, Clone)]
pub struct FieldAlias {
    pub table: MyAlias,
    pub col: Field,
}

/// Spec-level mirror of [`Field`].
pub ghost enum FieldV {
    U64(u64),
    Str(Seq<char>),
}

/// Spec-level mirror of [`FieldAlias`].
pub ghost struct FieldAliasV {
    pub table: u64,
    pub col: FieldV,
}

impl View for Field {
    type V = FieldV;

    open spec fn view(&self) -> FieldV {
        match self {
            Field::U64(a) => FieldV::U64(a.spec_id()),
            Field::Str(s) => FieldV::Str(s@),
        }
    }
}

impl View for FieldAlias {
    type V = FieldAliasV;

    open spec fn view(&self) -> FieldAliasV {
        FieldAliasV { table: self.table.spec_id(), col: self.col@ }
    }
}

/// Structural equality on fields.
pub fn field_eq(a: &Field, b: &Field) -> (r: bool)
    ensures
        r == (a@ == b@),
{
    match (a, b) {
        (Field::U64(x), Field::U64(y)) => x.id() == y.id(),
        (Field::Str(x), Field::Str(y)) => *x == *y,
        _ => false,
    }
}

/// Structural equality on field references.
pub fn field_alias_eq(a: &FieldAlias, b: &FieldAlias) -> (r: bool)
    ensures
        r == (a@ == b@),
{
    a.table.id() == b.table.id() && field_eq(&a.col, &b.col)
}

} // verus!
