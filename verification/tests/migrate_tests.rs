use rust_query::expr::{Const, ConstVal};
use rust_query::migrate::{
    declared_schema, read_schema, Alter, Create, Migration, Migrator, Prepare, Schema,
    SchemaBuilder, TableCreation, TableMigration, TableTypBuilder,
};
use rust_query::plan::{Aggregate, Db, Rows};
use rust_query::schema::{schema_eq, MyTyp, ColTyp, TableDef, TypBuilder};
use rust_query::store::SqlVal;
use rust_query::{Error, HasId, Table};

fn def_of<T: HasId>() -> TableDef {
    let mut b = TypBuilder::new();
    T::typs(&mut b);
    b.finish()
}

// --- version 1: Author and Book{title, author} ---

struct Author;

impl Table for Author {
    fn name(&self) -> String {
        "author".to_string()
    }

    fn typs(f: &mut TypBuilder) {
        let _ = f.col::<String>("name");
    }
}

impl HasId for Author {
    // spec-level description; erased, never evaluated
    fn spec_name() -> vstd::seq::Seq<char> {
        unreachable!()
    }

    fn table_name() -> String {
        "author".to_string()
    }
}

impl MyTyp for Author {
    // spec-level descriptions; erased, never evaluated
    fn spec_typ() -> ColTyp {
        unreachable!()
    }

    fn spec_nullable() -> bool {
        unreachable!()
    }

    fn spec_fk() -> Option<(vstd::seq::Seq<char>, vstd::seq::Seq<char>)> {
        unreachable!()
    }

    fn typ() -> ColTyp {
        ColTyp::Int
    }

    fn nullable() -> bool {
        false
    }

    fn fk() -> Option<(String, String)> {
        Some(("author".to_string(), "id".to_string()))
    }
}

struct Book;

impl Table for Book {
    fn name(&self) -> String {
        "book".to_string()
    }

    fn typs(f: &mut TypBuilder) {
        let _ = f.col::<String>("title");
        let _ = f.col::<Author>("author");
    }
}

impl HasId for Book {
    // spec-level description; erased, never evaluated
    fn spec_name() -> vstd::seq::Seq<char> {
        unreachable!()
    }

    fn table_name() -> String {
        "book".to_string()
    }
}

struct LibraryV1;

impl Schema for LibraryV1 {
    fn version() -> i64 {
        1
    }

    fn typs(b: &mut TableTypBuilder) {
        b.table::<Author>();
        b.table::<Book>();
    }
}

// --- version 2: Book gains a year column ---

struct BookV2;

impl Table for BookV2 {
    fn name(&self) -> String {
        "book".to_string()
    }

    fn typs(f: &mut TypBuilder) {
        let _ = f.col::<String>("title");
        let _ = f.col::<Author>("author");
        let _ = f.col::<i64>("year");
    }
}

impl HasId for BookV2 {
    // spec-level description; erased, never evaluated
    fn spec_name() -> vstd::seq::Seq<char> {
        unreachable!()
    }

    fn table_name() -> String {
        "book".to_string()
    }
}

struct LibraryV2;

impl Schema for LibraryV2 {
    fn version() -> i64 {
        2
    }

    fn typs(b: &mut TableTypBuilder) {
        b.table::<Author>();
        b.table::<BookV2>();
    }
}

struct BookAddYear;

impl TableMigration for BookAddYear {
    type From = Book;
    type To = BookV2;

    fn prepare(self, old_row: &Db) -> Result<Alter, Error> {
        Ok(Alter::new(vec![
            ("title".to_string(), old_row.col("title")?),
            ("author".to_string(), old_row.col("author")?),
            ("year".to_string(), Const::new(ConstVal::Int(0)).build_expr()),
        ]))
    }
}

struct V1ToV2;

impl Migration for V1ToV2 {
    type From = LibraryV1;
    type To = LibraryV2;

    fn tables(self, b: &mut SchemaBuilder) -> Result<(), Error> {
        b.migrate_table(BookAddYear)
    }
}

fn seed_v1(p: Prepare) -> Migrator<LibraryV1> {
    p.create_db_sql::<LibraryV1>(&[
        "INSERT INTO author (id, name) VALUES (1, 'Tolkien')",
        "INSERT INTO book (id, title, author) VALUES (1, 'LOTR', 1)",
        "INSERT INTO book (id, title, author) VALUES (5, 'Hobbit', 1)",
    ])
    .unwrap()
    .unwrap()
}

#[test]
fn declared_schema_round_trips() {
    let p = Prepare::open_in_memory().unwrap();
    let m = p.create_db_empty::<LibraryV1>().unwrap().unwrap();
    let db = m.finish().unwrap().unwrap();
    let declared = declared_schema::<LibraryV1>().unwrap();
    let live = read_schema(db.connection()).unwrap();
    assert!(schema_eq(&declared, &live));
}

#[test]
fn join_returns_related_row() {
    let p = Prepare::open_in_memory().unwrap();
    let m = seed_v1(p);
    let mut db = m.finish().unwrap().unwrap();
    assert_eq!(db.user_version().unwrap(), 1);

    let mut rows = db.rows();
    let book = rows.join_table("book", &def_of::<Book>()).unwrap();
    let author = rows.join_fk(&book, "author", &def_of::<Author>()).unwrap();
    let title = book.col("title").unwrap();
    let cond = title
        .eq(Const::new(ConstVal::Text("LOTR".to_string())).build_expr())
        .build_expr()
        .unwrap();
    rows.filter(cond).unwrap();
    let sel = vec![book.col("title").unwrap(), author.col("name").unwrap()];
    let q = db.attach(rows).unwrap();
    let res = q.into_vec(sel).unwrap();
    assert_eq!(
        res,
        vec![vec![
            SqlVal::Text("LOTR".to_string()),
            SqlVal::Text("Tolkien".to_string()),
        ]]
    );
}

#[test]
fn migration_keeps_row_identity() {
    let p = Prepare::open_in_memory().unwrap();
    let m = seed_v1(p);
    let m2: Migrator<LibraryV2> = m.migrate(V1ToV2).unwrap();
    let mut db = m2.finish().unwrap().unwrap();
    assert_eq!(db.user_version().unwrap(), 2);

    let mut rows = db.rows();
    let book = rows.join_table("book", &def_of::<BookV2>()).unwrap();
    rows.sort_by(book.id()).unwrap();
    let sel = vec![book.id(), book.col("title").unwrap(), book.col("year").unwrap()];
    let q = db.attach(rows).unwrap();
    let res = q.into_vec(sel).unwrap();
    assert_eq!(
        res,
        vec![
            vec![
                SqlVal::Int(1),
                SqlVal::Text("LOTR".to_string()),
                SqlVal::Int(0),
            ],
            vec![
                SqlVal::Int(5),
                SqlVal::Text("Hobbit".to_string()),
                SqlVal::Int(0),
            ],
        ]
    );
}

#[test]
fn migration_gating_is_passthrough() {
    let uri = "file:gating_store?mode=memory&cache=shared";
    let p = Prepare::open(uri).unwrap();
    let m = seed_v1(p);
    let m2: Migrator<LibraryV2> = m.migrate(V1ToV2).unwrap();
    // hold the first handle so the shared store stays alive
    let mut db1 = m2.finish().unwrap().unwrap();

    // a second chain written against the same versions runs transparently:
    // the store is already past version one, so the step is a no-op that
    // still yields the capability for version two
    let p2 = Prepare::open(uri).unwrap();
    let m1b = p2.create_db_sql::<LibraryV1>(&[]).unwrap().unwrap();
    let m2b: Migrator<LibraryV2> = m1b.migrate(V1ToV2).unwrap();
    let mut db2 = m2b.finish().unwrap().unwrap();
    assert_eq!(db2.user_version().unwrap(), 2);

    // the store is unchanged: same rows, same years
    let mut rows = db2.rows();
    let book = rows.join_table("book", &def_of::<BookV2>()).unwrap();
    rows.sort_by(book.id()).unwrap();
    let sel = vec![book.id(), book.col("year").unwrap()];
    let q = db2.attach(rows).unwrap();
    let res = q.into_vec(sel).unwrap();
    assert_eq!(
        res,
        vec![
            vec![SqlVal::Int(1), SqlVal::Int(0)],
            vec![SqlVal::Int(5), SqlVal::Int(0)],
        ]
    );
    let _ = db1.user_version();
}

// --- a migration that would leave a dangling foreign key ---

struct GhostBook;

impl Table for GhostBook {
    fn name(&self) -> String {
        "ghost_book".to_string()
    }

    fn typs(f: &mut TypBuilder) {
        let _ = f.col::<String>("title");
        let _ = f.col::<Author>("author");
    }
}

impl HasId for GhostBook {
    // spec-level description; erased, never evaluated
    fn spec_name() -> vstd::seq::Seq<char> {
        unreachable!()
    }

    fn table_name() -> String {
        "ghost_book".to_string()
    }
}

struct LibraryV2Ghost;

impl Schema for LibraryV2Ghost {
    fn version() -> i64 {
        2
    }

    fn typs(b: &mut TableTypBuilder) {
        b.table::<Author>();
        b.table::<Book>();
        b.table::<GhostBook>();
    }
}

struct DanglingCreate;

impl TableCreation for DanglingCreate {
    type FromSchema = LibraryV1;
    type To = GhostBook;

    fn prepare(self) -> Result<Create, Error> {
        Ok(Create::new(vec![
            (
                "title".to_string(),
                Const::new(ConstVal::Text("nowhere".to_string())).build_expr(),
            ),
            // no author row carries this identity
            ("author".to_string(), Const::new(ConstVal::Int(999)).build_expr()),
        ]))
    }
}

struct V1ToGhost;

impl Migration for V1ToGhost {
    type From = LibraryV1;
    type To = LibraryV2Ghost;

    fn tables(self, b: &mut SchemaBuilder) -> Result<(), Error> {
        b.create_from(DanglingCreate)
    }
}

#[test]
fn dangling_foreign_key_aborts_migration() {
    let uri = "file:integrity_store?mode=memory&cache=shared";
    // keep the shared store alive across both chains
    let keeper = Prepare::open(uri).unwrap();

    let p = Prepare::open(uri).unwrap();
    let m = seed_v1(p);
    let bad: Result<Migrator<LibraryV2Ghost>, Error> = m.migrate(V1ToGhost);
    assert!(matches!(bad, Err(Error::IntegrityViolation)));

    // the stamped version is unchanged: reopening at version one still
    // verifies and finishes
    let p2 = Prepare::open(uri).unwrap();
    let m1 = p2.create_db_sql::<LibraryV1>(&[]).unwrap().unwrap();
    let mut db = m1.finish().unwrap().unwrap();
    assert_eq!(db.user_version().unwrap(), 1);
    drop(keeper);
}

#[test]
fn create_from_empty_table() {
    let uri = "file:empty_create_store?mode=memory&cache=shared";
    let keeper = Prepare::open(uri).unwrap();
    let p = Prepare::open(uri).unwrap();
    let m = seed_v1(p);

    struct EmptyGhost;

    impl TableCreation for EmptyGhost {
        type FromSchema = LibraryV1;
        type To = GhostBook;

        fn prepare(self) -> Result<Create, Error> {
            Ok(Create::empty())
        }
    }

    struct V1ToEmptyGhost;

    impl Migration for V1ToEmptyGhost {
        type From = LibraryV1;
        type To = LibraryV2Ghost;

        fn tables(self, b: &mut SchemaBuilder) -> Result<(), Error> {
            b.create_from(EmptyGhost)
        }
    }

    let m2: Migrator<LibraryV2Ghost> = m.migrate(V1ToEmptyGhost).unwrap();
    let mut db = m2.finish().unwrap().unwrap();
    let mut rows = db.rows();
    let ghost = rows.join_table("ghost_book", &def_of::<GhostBook>()).unwrap();
    let sel = vec![ghost.id()];
    let q = db.attach(rows).unwrap();
    let res = q.into_vec(sel).unwrap();
    assert_eq!(res.len(), 0);
    drop(keeper);
}

// --- correlated aggregation: one count per album ---

struct Album;

impl Table for Album {
    fn name(&self) -> String {
        "album".to_string()
    }

    fn typs(f: &mut TypBuilder) {
        let _ = f.col::<String>("title");
    }
}

impl HasId for Album {
    // spec-level description; erased, never evaluated
    fn spec_name() -> vstd::seq::Seq<char> {
        unreachable!()
    }

    fn table_name() -> String {
        "album".to_string()
    }
}

impl MyTyp for Album {
    // spec-level descriptions; erased, never evaluated
    fn spec_typ() -> ColTyp {
        unreachable!()
    }

    fn spec_nullable() -> bool {
        unreachable!()
    }

    fn spec_fk() -> Option<(vstd::seq::Seq<char>, vstd::seq::Seq<char>)> {
        unreachable!()
    }

    fn typ() -> ColTyp {
        ColTyp::Int
    }

    fn nullable() -> bool {
        false
    }

    fn fk() -> Option<(String, String)> {
        Some(("album".to_string(), "id".to_string()))
    }
}

struct Track;

impl Table for Track {
    fn name(&self) -> String {
        "track".to_string()
    }

    fn typs(f: &mut TypBuilder) {
        let _ = f.col::<String>("name");
        let _ = f.col::<i64>("secs");
        let _ = f.col::<Album>("album");
    }
}

impl HasId for Track {
    // spec-level description; erased, never evaluated
    fn spec_name() -> vstd::seq::Seq<char> {
        unreachable!()
    }

    fn table_name() -> String {
        "track".to_string()
    }
}

struct MusicV1;

impl Schema for MusicV1 {
    fn version() -> i64 {
        1
    }

    fn typs(b: &mut TableTypBuilder) {
        b.table::<Album>();
        b.table::<Track>();
    }
}

#[test]
fn correlated_count_per_album() {
    let p = Prepare::open_in_memory().unwrap();
    let m = p
        .create_db_sql::<MusicV1>(&[
            "INSERT INTO album (id, title) VALUES (1, 'first')",
            "INSERT INTO album (id, title) VALUES (2, 'silent')",
            "INSERT INTO track (id, name, secs, album) VALUES (1, 'a', 10, 1)",
            "INSERT INTO track (id, name, secs, album) VALUES (2, 'b', 20, 1)",
            "INSERT INTO track (id, name, secs, album) VALUES (3, 'c', 30, 1)",
        ])
        .unwrap()
        .unwrap();
    let mut db = m.finish().unwrap().unwrap();

    let mut rows = db.rows();
    let album = rows.join_table("album", &def_of::<Album>()).unwrap();
    let mut agg = Aggregate::new(rows);
    let track = agg.rows().join_table("track", &def_of::<Track>()).unwrap();
    agg.filter_on(track.col("album").unwrap(), album.id()).unwrap();
    let handle = agg.rows().count_distinct(track.id()).unwrap();
    let (mut rows, mut outs) = agg.finish().unwrap();
    let count = outs.remove(handle);
    // an album with no tracks has no aggregate row: coalesce with zero
    let count = count
        .unwrap_or(Const::new(ConstVal::Int(0)).build_expr())
        .build_expr()
        .unwrap();
    rows.sort_by(album.id()).unwrap();
    let sel = vec![album.id(), count];
    let q = db.attach(rows).unwrap();
    let res = q.into_vec(sel).unwrap();
    assert_eq!(
        res,
        vec![
            vec![SqlVal::Int(1), SqlVal::Int(3)],
            vec![SqlVal::Int(2), SqlVal::Int(0)],
        ]
    );
}

#[test]
fn sum_over_matching_rows() {
    let p = Prepare::open_in_memory().unwrap();
    let m = p
        .create_db_sql::<MusicV1>(&[
            "INSERT INTO album (id, title) VALUES (1, 'first')",
            "INSERT INTO album (id, title) VALUES (2, 'silent')",
            "INSERT INTO track (id, name, secs, album) VALUES (4, 'a', 7, 1)",
            "INSERT INTO track (id, name, secs, album) VALUES (6, 'b', 13, 1)",
        ])
        .unwrap()
        .unwrap();
    let mut db = m.finish().unwrap().unwrap();

    let mut rows = db.rows();
    let album = rows.join_table("album", &def_of::<Album>()).unwrap();
    let mut agg = Aggregate::new(rows);
    let track = agg.rows().join_table("track", &def_of::<Track>()).unwrap();
    agg.filter_on(track.col("album").unwrap(), album.id()).unwrap();
    // sum over an integer expression; absent when no rows match, so the
    // outer plan coalesces it with zero
    let secs = track.col("secs").unwrap();
    let secs2 = track.col("secs").unwrap();
    let handle = agg.rows().sum(secs.add(secs2).build_expr().unwrap()).unwrap();
    let (mut rows, mut outs) = agg.finish().unwrap();
    let total = outs.remove(handle);
    let total = total
        .unwrap_or(Const::new(ConstVal::Int(0)).build_expr())
        .build_expr()
        .unwrap();
    rows.sort_by(album.id()).unwrap();
    let sel = vec![album.id(), total];
    let q = db.attach(rows).unwrap();
    let res = q.into_vec(sel).unwrap();
    assert_eq!(
        res,
        vec![
            vec![SqlVal::Int(1), SqlVal::Int(40)],
            vec![SqlVal::Int(2), SqlVal::Int(0)],
        ]
    );
}

#[test]
fn structural_drift_is_fatal() {
    // seeding statements that change the structure itself make the live
    // schema diverge from the declared one: a loud failure, not a warning
    let p = Prepare::open_in_memory().unwrap();
    let r = p.create_db_sql::<LibraryV1>(&[
        "CREATE TABLE \"extra\" (\"id\" INTEGER PRIMARY KEY) STRICT",
    ]);
    assert!(matches!(r, Err(Error::SchemaMismatch)));
}

#[test]
fn store_failure_is_reported() {
    let p = Prepare::open_in_memory().unwrap();
    let m = p.create_db_empty::<LibraryV1>().unwrap().unwrap();
    let mut db = m.finish().unwrap().unwrap();

    // a plan over a table the store does not have compiles, but the store
    // rejects the statement
    let mut rows = db.rows();
    let ghost = rows.join_table("ghost_book", &def_of::<GhostBook>()).unwrap();
    let sel = vec![ghost.id()];
    let q = db.attach(rows).unwrap();
    assert!(matches!(q.into_vec(sel), Err(Error::Sql(_))));
}

#[test]
fn database_query_flow() {
    let p = Prepare::open_in_memory().unwrap();
    let m = seed_v1(p);
    let mut db = m.finish().unwrap().unwrap();

    let mut q = db.query();
    let book = q.rows().join_table("book", &def_of::<Book>()).unwrap();
    q.rows().sort_by(book.id()).unwrap();
    let sel = vec![book.col("title").unwrap()];
    let res = q.into_vec(sel).unwrap();
    assert_eq!(
        res,
        vec![
            vec![SqlVal::Text("LOTR".to_string())],
            vec![SqlVal::Text("Hobbit".to_string())],
        ]
    );
}

#[test]
fn attach_rejects_foreign_plans() {
    let p = Prepare::open_in_memory().unwrap();
    let m = p.create_db_empty::<LibraryV1>().unwrap().unwrap();
    let mut db = m.finish().unwrap().unwrap();

    // a plan whose statement token this store never issued is rejected
    let foreign = Rows::new(99);
    assert!(matches!(db.attach(foreign), Err(Error::ScopeMismatch)));

    // a plan the store issued is accepted
    let issued = db.rows();
    assert!(db.attach(issued).is_ok());
}
