use rust_query::expr::{BaseTyp, Const, ConstVal, Typ};
use rust_query::plan::Rows;
use rust_query::schema::{ColTyp, TableDef, TypBuilder};
use rust_query::store::{FromCell, SqlVal};
use rust_query::Error;

fn author_def() -> TableDef {
    let mut b = TypBuilder::new();
    b.col_raw("name", ColTyp::Text, false, None).unwrap();
    b.col_raw("age", ColTyp::Int, false, None).unwrap();
    b.col_raw("nick", ColTyp::Text, true, None).unwrap();
    b.finish()
}

#[test]
fn const_types() {
    let t = Const::new(ConstVal::Int(5)).build_expr();
    assert_eq!(t.typ(), Typ { base: BaseTyp::Int, nullable: false });
    let t = Const::new(ConstVal::Text("x".to_string())).build_expr();
    assert_eq!(t.typ(), Typ { base: BaseTyp::Text, nullable: false });
    let t = Const::new(ConstVal::OptInt(None)).build_expr();
    assert_eq!(t.typ(), Typ { base: BaseTyp::Int, nullable: true });
}

#[test]
fn add_requires_integers() {
    let a = Const::new(ConstVal::Int(1)).build_expr();
    let b = Const::new(ConstVal::Int(2)).build_expr();
    let sum = a.add(b).build_expr().unwrap();
    assert_eq!(sum.typ(), Typ { base: BaseTyp::Int, nullable: false });

    let a = Const::new(ConstVal::Text("x".to_string())).build_expr();
    let b = Const::new(ConstVal::Int(2)).build_expr();
    assert!(matches!(a.add(b).build_expr(), Err(Error::TypeMismatch)));
}

#[test]
fn eq_requires_matching_tags() {
    let a = Const::new(ConstVal::Int(1)).build_expr();
    let b = Const::new(ConstVal::Text("x".to_string())).build_expr();
    assert!(matches!(a.eq(b).build_expr(), Err(Error::TypeMismatch)));

    let a = Const::new(ConstVal::Int(1)).build_expr();
    let b = Const::new(ConstVal::Int(2)).build_expr();
    let e = a.eq(b).build_expr().unwrap();
    assert_eq!(e.typ(), Typ { base: BaseTyp::Bool, nullable: false });
}

#[test]
fn eq_rejects_nullable_operands() {
    let a = Const::new(ConstVal::OptInt(Some(1))).build_expr();
    let b = Const::new(ConstVal::OptInt(Some(2))).build_expr();
    assert!(matches!(a.eq(b).build_expr(), Err(Error::TypeMismatch)));
}

#[test]
fn lt_requires_integer() {
    let a = Const::new(ConstVal::Int(3)).build_expr();
    let e = a.lt(7).build_expr().unwrap();
    assert_eq!(e.typ(), Typ { base: BaseTyp::Bool, nullable: false });

    let a = Const::new(ConstVal::Text("x".to_string())).build_expr();
    assert!(matches!(a.lt(7).build_expr(), Err(Error::TypeMismatch)));
}

#[test]
fn unwrap_or_checks_inner_type() {
    let mut rows = Rows::new(9);
    let db = rows.join_table("author", &author_def()).unwrap();
    let nick = db.col("nick").unwrap();
    let fallback = Const::new(ConstVal::Text("none".to_string())).build_expr();
    let t = nick.unwrap_or(fallback).build_expr().unwrap();
    assert_eq!(t.typ(), Typ { base: BaseTyp::Text, nullable: false });

    let nick = db.col("nick").unwrap();
    let wrong = Const::new(ConstVal::Int(0)).build_expr();
    assert!(matches!(nick.unwrap_or(wrong).build_expr(), Err(Error::TypeMismatch)));

    // the default must not itself be optional
    let nick = db.col("nick").unwrap();
    let optional = Const::new(ConstVal::OptText(Some("x".to_string()))).build_expr();
    assert!(matches!(nick.unwrap_or(optional).build_expr(), Err(Error::TypeMismatch)));
}

#[test]
fn not_requires_bool() {
    let a = Const::new(ConstVal::Bool(true)).build_expr();
    let e = a.not().build_expr().unwrap();
    assert_eq!(e.typ(), Typ { base: BaseTyp::Bool, nullable: false });

    let a = Const::new(ConstVal::Int(1)).build_expr();
    assert!(matches!(a.not().build_expr(), Err(Error::TypeMismatch)));
}

#[test]
fn column_types_follow_declaration() {
    let mut rows = Rows::new(4);
    let db = rows.join_table("author", &author_def()).unwrap();
    assert_eq!(db.col("age").unwrap().typ(), Typ { base: BaseTyp::Int, nullable: false });
    assert_eq!(db.col("nick").unwrap().typ(), Typ { base: BaseTyp::Text, nullable: true });
    assert!(matches!(db.col("missing"), Err(Error::UnknownColumn)));
    let id = db.id();
    assert_eq!(id.typ(), Typ { base: BaseTyp::RowId("author".to_string()), nullable: false });
}

#[test]
fn scope_tokens_cross_statement() {
    let mut rows_a = Rows::new(1);
    let db = rows_a.join_table("author", &author_def()).unwrap();
    let a = db.col("age").unwrap();
    let cond = a.lt(10).build_expr().unwrap();

    // an expression built for statement 1 is rejected by a plan of statement 2
    let mut rows_b = Rows::new(2);
    assert!(matches!(rows_b.filter(cond), Err(Error::ScopeMismatch)));
}

#[test]
fn alias_must_be_in_scope() {
    let mut rows_a = Rows::new(3);
    let db = rows_a.join_table("author", &author_def()).unwrap();
    let cond = db.col("age").unwrap().lt(10).build_expr().unwrap();

    // same statement token, but a plan that never joined the source
    let mut rows_b = Rows::new(3);
    assert!(matches!(rows_b.filter(cond), Err(Error::AliasOutOfScope)));
}

#[test]
fn cells_decode_into_typed_values() {
    assert_eq!(i64::from_cell(&SqlVal::Int(7)), Some(7));
    assert_eq!(i64::from_cell(&SqlVal::Null), None);
    assert_eq!(String::from_cell(&SqlVal::Text("x".to_string())), Some("x".to_string()));
    assert_eq!(bool::from_cell(&SqlVal::Int(1)), Some(true));
    assert_eq!(bool::from_cell(&SqlVal::Int(2)), None);
    assert_eq!(<Option<i64>>::from_cell(&SqlVal::Null), Some(None));
    assert_eq!(<Option<i64>>::from_cell(&SqlVal::Int(3)), Some(Some(3)));
    assert_eq!(<Option<i64>>::from_cell(&SqlVal::Text("x".to_string())), None);
}
