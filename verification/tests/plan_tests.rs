use rust_query::exec::show_sql;
use rust_query::expr::{Const, ConstVal};
use rust_query::plan::{Aggregate, Rows};
use rust_query::schema::{ColTyp, TableDef, TypBuilder};
use rust_query::store::SqlVal;
use rust_query::Error;

fn author_def() -> TableDef {
    let mut b = TypBuilder::new();
    b.col_raw("name", ColTyp::Text, false, None).unwrap();
    b.finish()
}

fn book_def() -> TableDef {
    let mut b = TypBuilder::new();
    b.col_raw("title", ColTyp::Text, false, None).unwrap();
    b.col_raw(
        "author",
        ColTyp::Int,
        false,
        Some(("author".to_string(), "id".to_string())),
    )
    .unwrap();
    b.finish()
}

#[test]
fn fk_join_added_once() {
    // resolving the same foreign-key field many times adds one source
    let mut rows = Rows::new(1);
    let book = rows.join_table("book", &book_def()).unwrap();
    assert_eq!(rows.source_count(), 1);
    let a1 = rows.join_fk(&book, "author", &author_def()).unwrap();
    assert_eq!(rows.source_count(), 2);
    let n_filters = rows.filter_count();
    let a2 = rows.join_fk(&book, "author", &author_def()).unwrap();
    let a3 = rows.join_fk(&book, "author", &author_def()).unwrap();
    assert_eq!(rows.source_count(), 2);
    assert_eq!(rows.filter_count(), n_filters);
    assert_eq!(a1.alias_id(), a2.alias_id());
    assert_eq!(a1.alias_id(), a3.alias_id());
}

#[test]
fn fk_join_rejects_non_fk() {
    let mut rows = Rows::new(1);
    let book = rows.join_table("book", &book_def()).unwrap();
    assert!(matches!(
        rows.join_fk(&book, "title", &author_def()),
        Err(Error::NotAForeignKey)
    ));
    assert!(matches!(
        rows.join_fk(&book, "missing", &author_def()),
        Err(Error::UnknownColumn)
    ));
}

#[test]
fn source_aliases_distinct() {
    let mut rows = Rows::new(2);
    let a = rows.join_table("author", &author_def()).unwrap();
    let b = rows.join_table("book", &book_def()).unwrap();
    let c = rows.join_table("book", &book_def()).unwrap();
    let ids = [a.alias_id(), b.alias_id(), c.alias_id()];
    for i in 0..ids.len() {
        for j in 0..ids.len() {
            if i != j {
                assert_ne!(ids[i], ids[j]);
            }
        }
    }
}

#[test]
fn compiled_select_text() {
    let mut rows = Rows::new(0);
    let a = rows.join_table("author", &author_def()).unwrap();
    let cond = a
        .col("name")
        .unwrap()
        .eq(Const::new(ConstVal::Text("x".to_string())).build_expr())
        .build_expr()
        .unwrap();
    rows.filter(cond).unwrap();
    let sel = vec![a.col("name").unwrap()];
    let (sql, params) = show_sql(&rows, sel).unwrap();
    assert_eq!(
        sql,
        "SELECT ?, \"_0\".\"name\" FROM (SELECT 1) JOIN \"author\" AS \"_0\" ON 1 WHERE 1 AND (\"_0\".\"name\" = ?)"
    );
    assert_eq!(
        params,
        vec![SqlVal::Int(1), SqlVal::Text("x".to_string())]
    );
}

#[test]
fn compiled_join_text() {
    let mut rows = Rows::new(0);
    let book = rows.join_table("book", &book_def()).unwrap();
    let author = rows.join_fk(&book, "author", &author_def()).unwrap();
    let sel = vec![book.col("title").unwrap(), author.col("name").unwrap()];
    let (sql, params) = show_sql(&rows, sel).unwrap();
    assert_eq!(
        sql,
        "SELECT ?, \"_0\".\"title\", \"_1\".\"name\" FROM (SELECT 1) JOIN \"book\" AS \"_0\" ON 1 JOIN \"author\" AS \"_1\" ON 1 WHERE 1 AND (\"_0\".\"author\" = \"_1\".\"id\")"
    );
    assert_eq!(params, vec![SqlVal::Int(1)]);
}

#[test]
fn compiled_nested_plan_text() {
    let mut rows = Rows::new(0);
    let author = rows.join_table("author", &author_def()).unwrap();
    let outer_id = author.id();
    let mut agg = Aggregate::new(rows);
    let book = agg.rows().join_table("book", &book_def()).unwrap();
    agg.filter_on(book.col("author").unwrap(), outer_id).unwrap();
    let h = agg.rows().count_distinct(book.id()).unwrap();
    assert_eq!(h, 0);
    let (rows, mut outs) = agg.finish().unwrap();
    let count = outs.remove(0);
    let (sql, params) = show_sql(&rows, vec![author.id(), count]).unwrap();
    assert_eq!(
        sql,
        "SELECT ?, \"_0\".\"id\", \"_4\".\"_3\" FROM (SELECT 1) JOIN \"author\" AS \"_0\" ON 1 LEFT JOIN (SELECT ?, \"_1\".\"author\" AS \"_2\", count(DISTINCT \"_1\".\"id\") AS \"_3\" FROM (SELECT 1) JOIN \"book\" AS \"_1\" ON 1 WHERE 1 GROUP BY \"_2\" ORDER BY \"_2\") AS \"_4\" ON 1 AND \"_4\".\"_2\" = \"_0\".\"id\" WHERE 1"
    );
    assert_eq!(params, vec![SqlVal::Int(1), SqlVal::Int(1)]);
}

#[test]
fn group_and_sort_keys_render() {
    let mut rows = Rows::new(0);
    let a = rows.join_table("author", &author_def()).unwrap();
    rows.group_by(a.col("name").unwrap()).unwrap();
    rows.sort_by(a.id()).unwrap();
    let (sql, params) = show_sql(&rows, vec![]).unwrap();
    assert_eq!(
        sql,
        "SELECT ?, \"_0\".\"name\" AS \"_1\", \"_0\".\"id\" AS \"_2\" FROM (SELECT 1) JOIN \"author\" AS \"_0\" ON 1 WHERE 1 GROUP BY \"_1\" ORDER BY \"_1\", \"_2\""
    );
    assert_eq!(params, vec![SqlVal::Int(1)]);
}

#[test]
fn filter_rejects_non_boolean() {
    let mut rows = Rows::new(0);
    let a = rows.join_table("author", &author_def()).unwrap();
    let name = a.col("name").unwrap();
    assert!(matches!(rows.filter(name), Err(Error::TypeMismatch)));
}
