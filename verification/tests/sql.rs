//! Databases: the account schema, an app's own schema, and caller SQL, each run
//! on SQLite under the library's decisions.
use rusqlite::hooks::{AuthAction, AuthContext, Authorization};
use rusqlite::types::{Value, ValueRef};
use rusqlite::Connection;
use rusqlite_migration::{Migrations, M};
use toolsite::accounts::schema;
use toolsite::config::Config;
use toolsite::runtime::db::{
    bind, db_path, deny_escapes, how_to_run, may_query, query_error, script_failed, to_json,
    to_sql, Action, Bound, Cell, Given, Prepared, QueryError, Running, Shown, SqlOutcome,
    MAX_DB_BYTES, MAX_PAGES, MAX_ROWS,
};
use toolsite::runtime::migrate;

fn config() -> Config {
    Config::local("/data".to_string(), "test-token", true)
}

fn action_of(action: AuthAction<'_>) -> Action {
    match action {
        AuthAction::Attach { .. } => Action::Attach,
        AuthAction::Detach { .. } => Action::Detach,
        AuthAction::Pragma { .. } => Action::Pragma,
        _ => Action::Other,
    }
}

fn lock_down(conn: &Connection) {
    conn.authorizer(Some(|context: AuthContext<'_>| {
        if deny_escapes(action_of(context.action)) {
            Authorization::Allow
        } else {
            Authorization::Deny
        }
    }))
    .unwrap();
}

fn open() -> Connection {
    let conn = Connection::open_in_memory().unwrap();
    lock_down(&conn);
    conn
}

fn value(bound: &Bound) -> Value {
    match bound {
        Bound::Null => Value::Null,
        Bound::Integer(i) => Value::Integer(*i),
        Bound::Real(text) => Value::Real(text.parse().unwrap()),
        Bound::Text(text) => Value::Text(text.clone()),
    }
}

fn cell(value: ValueRef<'_>) -> Cell {
    match value {
        ValueRef::Null => Cell::Null,
        ValueRef::Integer(i) => Cell::Integer(i),
        ValueRef::Real(f) => Cell::Real(f.to_string()),
        ValueRef::Text(t) => Cell::Text(t.to_vec()),
        ValueRef::Blob(b) => Cell::Blob(b.len()),
    }
}

fn run(conn: &Connection, sql: &str, params: Vec<Given>) -> Result<SqlOutcome, String> {
    let (prepared, why, statement) = match conn.prepare(sql) {
        Ok(statement) => (Prepared::Ready, String::new(), Some(statement)),
        Err(e @ rusqlite::Error::MultipleStatement) => {
            (Prepared::Several(e.to_string()), e.to_string(), None)
        }
        Err(e) => (Prepared::Failed(e.to_string()), e.to_string(), None),
    };
    let before = conn.total_changes();
    match how_to_run(prepared, !params.is_empty()) {
        Running::Refused(message) => Err(message),
        Running::Script => {
            conn.execute_batch(sql).map_err(|e| {
                let from_sqlite = matches!(e, rusqlite::Error::SqliteFailure(..));
                script_failed(from_sqlite, e.to_string(), why)
            })?;
            let mut outcome = SqlOutcome::new(Vec::new());
            outcome.finish(before, conn.total_changes());
            Ok(outcome)
        }
        Running::Query => {
            let mut statement = statement.unwrap();
            let bound: Vec<Value> = bind(&params)?.iter().map(value).collect();
            let columns: Vec<String> =
                statement.column_names().into_iter().map(str::to_string).collect();
            let width = columns.len();
            let mut outcome = SqlOutcome::new(columns);
            let mut cursor = statement
                .query(rusqlite::params_from_iter(bound.iter()))
                .map_err(|e| e.to_string())?;
            while let Some(row) = cursor.next().map_err(|e| e.to_string())? {
                let cells = (0..width).map(|i| cell(row.get_ref(i).unwrap())).collect();
                if !outcome.take(&cells) {
                    break;
                }
            }
            drop(cursor);
            outcome.finish(before, conn.total_changes());
            Ok(outcome)
        }
    }
}

fn text(text: &str) -> Given {
    Given::Text(text.to_string())
}

fn names(outcome: &SqlOutcome) -> Vec<&str> {
    outcome
        .rows
        .iter()
        .map(|row| match &row[0] {
            Shown::Text(name) => name.as_str(),
            _ => panic!("a name is text"),
        })
        .collect()
}

fn account_migrations() -> Vec<String> {
    schema::migrations()
}

fn migrate_accounts(conn: &mut Connection) {
    let texts = account_migrations();
    Migrations::new(texts.iter().map(|sql| M::up(sql)).collect()).to_latest(conn).unwrap();
}

fn version(conn: &Connection) -> i64 {
    conn.query_row("pragma user_version", [], |row| row.get(0)).unwrap()
}

#[test]
fn every_migration_is_valid_sql() {
    let texts = account_migrations();
    Migrations::new(texts.iter().map(|sql| M::up(sql)).collect()).validate().unwrap();
}

#[test]
fn migrating_is_idempotent() {
    let mut conn = Connection::open_in_memory().unwrap();
    migrate_accounts(&mut conn);
    let reached = version(&conn);
    assert!(reached > 0, "user_version was not advanced");

    // Running again must be a no-op, not an error.
    migrate_accounts(&mut conn);
    assert_eq!(reached, version(&conn));
}

#[test]
fn the_ladder_produces_exactly_the_declared_schema() {
    let mut conn = Connection::open_in_memory().unwrap();
    migrate_accounts(&mut conn);

    // SQLite keeps comments inside the DDL it stores, so both sides are
    // stripped of them and of incidental whitespace before comparing.
    let normalise = |text: &str| {
        text.lines()
            .map(|line| match line.find("--") {
                Some(at) => &line[..at],
                None => line,
            })
            .collect::<Vec<_>>()
            .join(" ")
            .split_whitespace()
            .collect::<Vec<_>>()
            .join(" ")
    };
    let mut statement = conn
        .prepare(
            "select sql from sqlite_master
              where sql is not null and name not like 'sqlite_%'
              order by name",
        )
        .unwrap();
    let actual = statement
        .query_map([], |row| row.get::<_, String>(0))
        .unwrap()
        .filter_map(Result::ok)
        .collect::<Vec<_>>()
        .join("\n");
    assert_eq!(normalise(&actual), normalise(schema::SCHEMA));
}

#[test]
fn a_database_from_an_earlier_version_catches_up() {
    let mut conn = Connection::open_in_memory().unwrap();
    assert_eq!(version(&conn), 0);
    migrate_accounts(&mut conn);

    // The tables the rest of the module expects are all present.
    for table in ["users", "identities", "sessions", "grants"] {
        let count: i64 = conn
            .query_row(
                "select count(*) from sqlite_master where type = 'table' and name = ?",
                [table],
                |row| row.get(0),
            )
            .unwrap();
        assert_eq!(count, 1, "{table} is missing after migrating");
    }
}

#[test]
fn the_account_database_is_out_of_every_apps_reach() {
    assert_eq!(schema::site_db_path(&config()), "/data/.site/auth.db");
    assert!(db_path(&config(), ".site").is_none());
}

#[test]
fn migrations_run_as_scripts_and_are_idempotent() {
    let conn = open();
    let migration = "create table if not exists todos (id integer primary key, body text);\
                     create index if not exists todos_body on todos(body);";
    run(&conn, migration, vec![]).unwrap();
    // The second run must not error, which is what makes redeploys safe.
    run(&conn, migration, vec![]).unwrap();

    let out = run(&conn, "select name from sqlite_master order by name", vec![]).unwrap();
    assert_eq!(names(&out), ["todos", "todos_body"]);
}

#[test]
fn parameters_are_bound_not_interpolated() {
    let conn = open();
    run(&conn, "create table t (body text)", vec![]).unwrap();
    // A classic injection payload must land as literal text.
    let payload = "'); drop table t; --";
    run(&conn, "insert into t (body) values (?)", vec![text(payload)]).unwrap();

    let out = run(&conn, "select body from t", vec![]).unwrap();
    assert_eq!(out.rows.len(), 1);
    assert_eq!(names(&out), [payload]);
}

#[test]
fn each_app_gets_its_own_file() {
    assert_eq!(db_path(&config(), "one").unwrap(), "/data/one/data.db");
    assert_eq!(db_path(&config(), "two").unwrap(), "/data/two/data.db");
    assert_ne!(db_path(&config(), "one"), db_path(&config(), "two"));

    let (one, two) = (open(), open());
    run(&one, "create table only_in_one (a)", vec![]).unwrap();
    run(&two, "create table only_in_two (a)", vec![]).unwrap();
    let out = run(&two, "select name from sqlite_master", vec![]).unwrap();
    assert_eq!(names(&out), ["only_in_two"]);
}

#[test]
fn attach_is_refused_so_sql_cannot_reach_another_app() {
    let conn = open();
    run(&conn, "create table t (a)", vec![]).unwrap();
    for attempt in [
        "attach database '../victim/data.db' as v",
        "attach database '/etc/passwd' as p",
        "ATTACH DATABASE '../victim/data.db' AS v",
    ] {
        let error = run(&conn, attempt, vec![]).unwrap_err();
        assert!(error.contains("not authorized"), "{attempt:?} gave {error:?}");
    }
}

#[test]
fn pragmas_are_refused() {
    let error = run(&open(), "pragma journal_mode=delete", vec![]).unwrap_err();
    assert!(error.contains("not authorized"), "got {error:?}");
}

#[test]
fn an_invalid_app_name_never_reaches_the_filesystem() {
    assert!(db_path(&config(), "../etc").is_none());
    assert!(db_path(&config(), "ok/name").is_some());
    let run_for = |app: &str| {
        let _path = db_path(&config(), app).ok_or_else(|| format!("invalid app name '{app}'"))?;
        run(&open(), "select 1", vec![])
    };
    assert!(run_for("../etc").is_err());
    assert!(run_for("ok/name").is_ok());
}

#[test]
fn reads_are_capped_and_say_so() {
    let conn = open();
    run(&conn, "create table n (i integer)", vec![]).unwrap();
    run(
        &conn,
        "insert into n with recursive c(i) as (select 1 union all select i+1 from c where i<1500) select i from c",
        vec![],
    )
    .unwrap();

    let out = run(&conn, "select i from n", vec![]).unwrap();
    assert_eq!(out.rows.len(), MAX_ROWS);
    assert!(out.truncated);
}

#[test]
fn writes_stop_at_the_size_cap_instead_of_filling_the_volume() {
    let conn = Connection::open_in_memory().unwrap();
    conn.pragma_update(None, "max_page_count", MAX_PAGES as i64).unwrap();
    lock_down(&conn);
    run(&conn, "create table big (x blob)", vec![]).unwrap();
    let error = run(
        &conn,
        "insert into big with recursive c(i) as (select 1 union all select i+1 from c where i<80) select randomblob(1000000) from c",
        vec![],
    )
    .unwrap_err();
    assert!(error.contains("full"), "got {error:?}");

    conn.authorizer(None::<fn(AuthContext<'_>) -> Authorization>).unwrap();
    let pragma = |name: &str| -> i64 {
        conn.query_row(&format!("pragma {name}"), [], |row| row.get(0)).unwrap()
    };
    let size = (pragma("page_count") * pragma("page_size")) as u64;
    assert!(size < MAX_DB_BYTES, "database grew to {size}");
}

#[test]
fn rows_affected_is_reported_for_writes() {
    let conn = open();
    run(&conn, "create table t (a)", vec![]).unwrap();
    let out = run(&conn, "insert into t values (1)", vec![]).unwrap();
    assert_eq!(out.rows_affected, 1);
}

#[test]
fn one_statement_at_a_time_takes_parameters() {
    let conn = open();
    assert_eq!(
        run(&conn, "select 1; select 2", vec![text("x")]).unwrap_err(),
        "pass one statement at a time when using parameters"
    );
    let broken = run(&conn, "this is not sql", vec![]).unwrap_err();
    assert!(broken.contains("syntax error"), "got {broken:?}");
}

#[test]
fn parameters_are_scalars() {
    assert_eq!(to_sql(&Given::Bool(true)), Ok(Bound::Integer(1)));
    assert_eq!(to_sql(&Given::Null), Ok(Bound::Null));
    assert_eq!(
        to_sql(&Given::Number { integer: Some(-7), is_real: true, text: "-7".into() }),
        Ok(Bound::Integer(-7))
    );
    assert_eq!(
        to_sql(&Given::Number { integer: None, is_real: true, text: "1.5".into() }),
        Ok(Bound::Real("1.5".into()))
    );
    assert_eq!(
        to_sql(&Given::Number { integer: None, is_real: false, text: "huge".into() }),
        Err("unsupported number: huge".into())
    );
    assert_eq!(
        to_sql(&Given::Other("[1]".into())),
        Err("parameters must be scalars, got [1]".into())
    );
}

#[test]
fn an_outcome_is_written_as_json() {
    let conn = open();
    let out = run(
        &conn,
        "select null as a, -3 as b, 1.5 as c, 'say \"hi\"' as d, x'0102' as e",
        vec![],
    )
    .unwrap();
    assert_eq!(out.rows[0][4], Shown::Text("<2 byte blob>".into()));
    assert_eq!(
        to_json(&out),
        "{\"columns\":[\"a\",\"b\",\"c\",\"d\",\"e\"],\
         \"rows\":[[null,-3,1.5,\"say \\\"hi\\\"\",\"<2 byte blob>\"]],\
         \"rows_affected\":0,\"truncated\":false}"
    );
}

fn file(name: &str, sql: &str) -> (String, String) {
    (name.to_string(), sql.to_string())
}

fn apply(conn: &mut Connection, files: &[(String, String)]) -> Result<(usize, usize), String> {
    if files.is_empty() {
        return Ok((0, 0));
    }
    let before = version(conn) as usize;
    let steps = files.iter().map(|(_, sql)| M::up(sql)).collect();
    Migrations::new(steps)
        .to_latest(conn)
        .map_err(|e| migrate::failed(&e.to_string()))?;
    Ok(migrate::applied(before, version(conn) as usize))
}

#[test]
fn migrations_run_in_order_and_only_once() {
    let mut conn = Connection::open_in_memory().unwrap();
    let files = migrate::store(
        "app",
        vec![
            file("002_body.sql", "alter table todos add column body text"),
            file("001_initial.sql", "create table todos (id integer primary key)"),
        ],
    )
    .unwrap();
    assert_eq!(files[0].0, "001_initial.sql");

    assert_eq!(apply(&mut conn, &files).unwrap(), (2, 2));
    // Running again is a no-op rather than an error, which is what makes a
    // redeploy safe.
    assert_eq!(apply(&mut conn, &files).unwrap(), (2, 0));

    lock_down(&conn);
    run(&conn, "insert into todos (body) values (?)", vec![text("x")]).unwrap();
}

#[test]
fn a_column_added_later_reaches_a_database_that_already_existed() {
    let mut conn = Connection::open_in_memory().unwrap();
    let first = file("001.sql", "create table todos (id integer primary key)");
    let files = migrate::store("app", vec![first.clone()]).unwrap();
    apply(&mut conn, &files).unwrap();
    run(&conn, "insert into todos default values", vec![]).unwrap();

    let second = file("002.sql", "alter table todos add column body text");
    let files = migrate::store("app", vec![first, second]).unwrap();
    assert_eq!(apply(&mut conn, &files).unwrap(), (2, 1), "the new step did not run");

    let rows = run(&conn, "select body from todos", vec![]).unwrap();
    assert_eq!(rows.rows.len(), 1, "the existing row was lost");
}

#[test]
fn a_broken_migration_leaves_the_database_as_it_was() {
    let mut conn = Connection::open_in_memory().unwrap();
    let files = migrate::store(
        "app",
        vec![file("001.sql", "create table good (a)"), file("002.sql", "this is not sql")],
    )
    .unwrap();

    let error = apply(&mut conn, &files).unwrap_err();
    assert!(error.contains("migration failed"), "got {error}");
    // The first step is not left half-applied for the next deploy to trip over.
    let tables =
        run(&conn, "select name from sqlite_master where type='table' order by name", vec![])
            .unwrap();
    assert!(tables.rows.is_empty());
}

#[test]
fn each_app_has_its_own_schema() {
    assert_eq!(migrate::path(&config(), "mine").unwrap(), "/data/mine.migrations");
    assert_ne!(migrate::path(&config(), "mine"), migrate::path(&config(), "theirs"));
    assert_eq!(migrate::path(&config(), "../etc"), None);
    let mut theirs = Connection::open_in_memory().unwrap();
    assert_eq!(apply(&mut theirs, &[]).unwrap(), (0, 0));
}

#[test]
fn a_migration_with_nothing_in_it_is_refused() {
    assert_eq!(
        migrate::store("app", vec![file("001.sql", "select 1"), file("002.sql", " \n")]),
        Err("002.sql is empty".to_string())
    );
    assert_eq!(
        migrate::store("../etc", vec![]),
        Err("invalid app name '../etc'".to_string())
    );
}

#[test]
fn a_handler_learns_why_its_statement_was_not_answered() {
    assert_eq!(
        query_error("not authorized".to_string()),
        QueryError::Denied("not authorized".to_string())
    );
    assert_eq!(
        query_error("no such table: t".to_string()),
        QueryError::Failed("no such table: t".to_string())
    );
    assert_eq!(may_query(true), Ok(()));
    assert_eq!(
        may_query(false),
        Err(QueryError::Denied("databases are not enabled".to_string()))
    );
}
