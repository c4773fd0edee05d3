//! A typed query-construction and schema-evolution engine over an SQL store.
//!
//! Queries are composed as typed values: a select plan owns its joined
//! sources, filter expressions, grouping keys, aggregate projections and sort
//! keys, and compiles to a single `SELECT` statement.  The same machinery
//! drives schema migrations: each migration step reads the old table through
//! a select plan and projects transformed rows into a freshly created table,
//! inside one exclusive transaction that is committed only after the live
//! structure has been verified against the declared schema.

pub mod alias;
pub mod expr;
pub mod plan;
pub mod render;
pub mod schema;
pub mod store;
pub mod migrate;
pub mod exec;

use vstd::prelude::*;

verus! {

/// Errors surfaced by plan construction and migration.
///
/// Construction errors (type mismatches, scope violations, unknown columns)
/// are reported when a plan is built, before any SQL is emitted.  `Sql`
/// carries the storage engine's message for a failed statement.
#[derive(Debug, Clone)]
pub enum Error {
    /// Two expression operands have incompatible semantic types.
    TypeMismatch,
    /// An expression built for one statement was used in another.
    ScopeMismatch,
    /// An expression references a table alias that no source of the plan
    /// (or of an enclosing plan) produced.
    AliasOutOfScope,
    /// A name is not a valid identifier, or names no declared column.
    UnknownColumn,
    /// A column was dereferenced as a foreign key but is not one.
    NotAForeignKey,
    /// Too many identifiers were allocated within one statement scope.
    ScopeExhausted,
    /// The storage engine rejected a statement.
    Sql(String),
    /// A row read back from the store did not have the expected shape.
    BadRow,
    /// A migration step would have left dangling foreign keys.
    IntegrityViolation,
    /// The live structure differs from the declared schema.
    SchemaMismatch,
}

/// A table type: its name and its declared columns.  Implemented by the
/// application's generated table types; the engine validates everything a
/// declaration supplies before using it.
pub trait Table {
    /// The table's name in the store.
    fn name(&self) -> String;

    /// Declare the table's columns and unique constraints.
    fn typs(f: &mut schema::TypBuilder);
}

/// A table whose rows carry the implicit integer identity column.
pub trait HasId: Table {
    /// The table's name in the store, for specifications.
    spec fn spec_name() -> Seq<char>;

    /// The table's name in the store, available without an instance.
    fn table_name() -> (r: String)
        ensures
            r@ == Self::spec_name(),
    ;
}

/// Field types that may appear in a schema.
pub trait ValidInSchema<S> {

}

impl<S> ValidInSchema<S> for String {

}

impl<S> ValidInSchema<S> for i64 {

}

impl<S> ValidInSchema<S> for bool {

}

impl<S, T: ValidInSchema<S>> ValidInSchema<S> for Option<T> {

}

/// Compile-time assertion that a field type may appear in schema `S`.
pub fn valid_in_schema<S, T: ValidInSchema<S>>() {
}

} // verus!
