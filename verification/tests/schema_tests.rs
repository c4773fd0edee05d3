use rust_query::schema::{
    create_table_sql, schema_eq, table_eq, unique_eq, ColTyp, SchemaDef, TableDef, TypBuilder,
    Unique,
};
use rust_query::Error;

fn simple_def() -> TableDef {
    let mut b = TypBuilder::new();
    b.col_raw("name", ColTyp::Text, false, None).unwrap();
    b.col_raw("born", ColTyp::Int, true, None).unwrap();
    b.finish()
}

#[test]
fn builder_rejects_bad_names() {
    let mut b = TypBuilder::new();
    assert!(matches!(
        b.col_raw("Bad Name", ColTyp::Text, false, None),
        Err(Error::UnknownColumn)
    ));
    // the implicit identity column may not be redeclared
    assert!(matches!(
        b.col_raw("id", ColTyp::Int, false, None),
        Err(Error::UnknownColumn)
    ));
    b.col_raw("name", ColTyp::Text, false, None).unwrap();
    // duplicate column names are rejected
    assert!(matches!(
        b.col_raw("name", ColTyp::Int, false, None),
        Err(Error::UnknownColumn)
    ));
}

#[test]
fn table_equality_ignores_order() {
    let mut b1 = TypBuilder::new();
    b1.col_raw("a", ColTyp::Int, false, None).unwrap();
    b1.col_raw("b", ColTyp::Text, true, None).unwrap();
    let t1 = b1.finish();

    let mut b2 = TypBuilder::new();
    b2.col_raw("b", ColTyp::Text, true, None).unwrap();
    b2.col_raw("a", ColTyp::Int, false, None).unwrap();
    let t2 = b2.finish();

    assert!(table_eq(&t1, &t2));

    let mut b3 = TypBuilder::new();
    b3.col_raw("a", ColTyp::Int, false, None).unwrap();
    b3.col_raw("b", ColTyp::Text, false, None).unwrap();
    let t3 = b3.finish();
    // nullability differs
    assert!(!table_eq(&t1, &t3));
}

#[test]
fn unique_equality_is_set_based() {
    let a = Unique { columns: vec!["x".to_string(), "y".to_string()] };
    let b = Unique { columns: vec!["y".to_string(), "x".to_string()] };
    let c = Unique { columns: vec!["x".to_string()] };
    assert!(unique_eq(&a, &b));
    assert!(!unique_eq(&a, &c));
}

#[test]
fn schema_equality_ignores_table_order() {
    let s1 = SchemaDef {
        tables: vec![
            ("alpha".to_string(), simple_def()),
            ("beta".to_string(), simple_def()),
        ],
    };
    let s2 = SchemaDef {
        tables: vec![
            ("beta".to_string(), simple_def()),
            ("alpha".to_string(), simple_def()),
        ],
    };
    assert!(schema_eq(&s1, &s2));

    let s3 = SchemaDef { tables: vec![("alpha".to_string(), simple_def())] };
    assert!(!schema_eq(&s1, &s3));
}

#[test]
fn create_table_text() {
    let mut b = TypBuilder::new();
    b.col_raw("title", ColTyp::Text, false, None).unwrap();
    b.col_raw(
        "author",
        ColTyp::Int,
        false,
        Some(("author".to_string(), "id".to_string())),
    )
    .unwrap();
    b.unique(&["title"]).unwrap();
    let t = b.finish();
    let sql = create_table_sql("book", &t);
    assert_eq!(
        sql,
        "CREATE TABLE \"book\" (\"id\" INTEGER PRIMARY KEY, \"title\" TEXT NOT NULL, \"author\" INTEGER NOT NULL, FOREIGN KEY(\"author\") REFERENCES \"author\"(\"id\"), UNIQUE(\"title\")) STRICT"
    );
}

#[test]
fn create_table_nullable_column() {
    let mut b = TypBuilder::new();
    b.col_raw("born", ColTyp::Int, true, None).unwrap();
    let t = b.finish();
    let sql = create_table_sql("person", &t);
    assert_eq!(
        sql,
        "CREATE TABLE \"person\" (\"id\" INTEGER PRIMARY KEY, \"born\" INTEGER) STRICT"
    );
}
