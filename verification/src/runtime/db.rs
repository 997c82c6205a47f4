//! The database that each app has to itself, and what of it may be seen from
//! outside.
use crate::config::Config;
use crate::content::slug::{is_segment, is_slug, valid_slug};
use crate::content::store::{inside, join_path};
use crate::encode::{json_quote, json_string};
use crate::text::{
    contains_str, decimal, digits, holds, join, joined, lossy, lossy_text, split, texts,
};
use vstd::prelude::*;

verus! {

/// Per-app ceiling. SQLite enforces it itself via max_page_count, so a runaway
/// insert fails its statement instead of filling the volume.
pub const MAX_DB_BYTES: u64 = 67_108_864;

/// How large a page of a database is.
pub const PAGE_SIZE: u64 = 4_096;

/// How many pages a database may have.
pub const MAX_PAGES: u64 = MAX_DB_BYTES / PAGE_SIZE;

/// Cap on rows returned in one call, so a `select *` can't blow up the caller.
pub const MAX_ROWS: usize = 1_000;

/// How long a statement waits for another to finish.
pub const BUSY_TIMEOUT_MS: u32 = 5_000;

/// Where the database of an app is, if it can have one. Every app gets its own
/// file. The path comes from an already-validated slug and never from anything
/// a caller supplied verbatim.
pub fn db_path(config: &Config, app: &str) -> (r: Option<String>)
    ensures
        match r {
            Some(p) => is_slug(app@) && p@ == inside(inside(config.data_dir@, app@), "data.db"@),
            None => !is_slug(app@),
        },
{
    if valid_slug(app) {
        Some(join_path(join_path(config.data_dir.as_str(), app).as_str(), "data.db"))
    } else {
        None
    }
}

/// What a statement is about to do, as far as it matters here.
#[derive(Clone, Copy, Debug, PartialEq, Eq, Structural)]
pub enum Action {
    /// Opening another database file.
    Attach,
    /// Letting one go.
    Detach,
    /// Reading or changing a setting of the connection.
    Pragma,
    /// Anything else.
    Other,
}

/// Whether a statement may do what it is about to: nothing that could reach
/// outside this one file.
///
/// ATTACH is path traversal expressed in SQL: it would open another app's
/// database through a connection that looks correctly scoped. The host sets its
/// own pragmas before it asks this, so any pragma reaching here came from caller
/// SQL.
pub fn deny_escapes(action: Action) -> (allowed: bool)
    ensures
        allowed == (action == Action::Other),
{
    match action {
        Action::Attach => false,
        Action::Detach => false,
        Action::Pragma => false,
        Action::Other => true,
    }
}

/// A value that a caller gives to a statement.
pub enum Given {
    Null,
    Bool(bool),
    /// A number: what it is as an integer, whether it can be a real number, and
    /// how it is written.
    Number { integer: Option<i64>, is_real: bool, text: String },
    Text(String),
    /// A list or an object, as it is written.
    Other(String),
}

/// A value as a statement takes it. A real number is kept as it is written.
#[derive(Debug, PartialEq)]
pub enum Bound {
    Null,
    Integer(i64),
    Real(String),
    Text(String),
}

/// Why a value cannot be given to a statement.
pub open spec fn bind_refusal(value: Given) -> Option<Seq<char>> {
    match value {
        Given::Number { integer: None, is_real: false, text } => Some("unsupported number: "@ + text@),
        Given::Other(text) => Some("parameters must be scalars, got "@ + text@),
        _ => None,
    }
}

/// Whether a value is what a statement takes for the one that was given.
pub open spec fn is_bound(bound: Bound, value: Given) -> bool {
    match value {
        Given::Null => bound is Null,
        Given::Bool(b) => bound == Bound::Integer(
            if b {
                1
            } else {
                0
            },
        ),
        Given::Number { integer: Some(i), .. } => bound == Bound::Integer(i),
        Given::Number { integer: None, is_real, text } => is_real && (bound matches Bound::Real(t) && t@
            == text@),
        Given::Text(text) => bound matches Bound::Text(t) && t@ == text@,
        Given::Other(_) => false,
    }
}

/// What a statement takes for a value that was given.
pub fn to_sql(value: &Given) -> (r: Result<Bound, String>)
    ensures
        match r {
            Ok(bound) => bind_refusal(*value) is None && is_bound(bound, *value),
            Err(m) => bind_refusal(*value) == Some(m@),
        },
{
    match value {
        Given::Null => Ok(Bound::Null),
        Given::Bool(b) => Ok(
            Bound::Integer(
                if *b {
                    1
                } else {
                    0
                },
            ),
        ),
        Given::Number { integer, is_real, text } => match integer {
            Some(i) => Ok(Bound::Integer(*i)),
            None => if *is_real {
                Ok(Bound::Real(text.clone()))
            } else {
                Err("unsupported number: ".to_owned().concat(text.as_str()))
            },
        },
        Given::Text(text) => Ok(Bound::Text(text.clone())),
        Given::Other(text) => Err(
            "parameters must be scalars, got ".to_owned().concat(text.as_str()),
        ),
    }
}

/// Whether values are what a statement takes for those that were given, one for
/// one.
pub open spec fn are_bound(bound: Seq<Bound>, values: Seq<Given>) -> bool {
    bound.len() == values.len() && forall|i: int|
        0 <= i < bound.len() ==> is_bound(#[trigger] bound[i], values[i])
}

/// Whether a reason is that of the first value that cannot be taken.
pub open spec fn is_first_refusal(values: Seq<Given>, why: Seq<char>) -> bool {
    exists|i: int|
        #![trigger values[i]]
        0 <= i < values.len() && bind_refusal(values[i]) == Some(why) && forall|j: int|
            0 <= j < i ==> bind_refusal(#[trigger] values[j]) is None
}

/// What a statement takes for the values that were given: all of them, or the
/// reason why the first that it cannot take is refused.
pub fn bind(values: &Vec<Given>) -> (r: Result<Vec<Bound>, String>)
    ensures
        match r {
            Ok(bound) => are_bound(bound@, values@),
            Err(m) => is_first_refusal(values@, m@),
        },
{
    let mut bound: Vec<Bound> = Vec::new();
    let mut i: usize = 0;
    while i < values.len()
        invariant
            i <= values.len(),
            bound.len() == i,
            forall|j: int| 0 <= j < i ==> is_bound(#[trigger] bound@[j], values@[j]),
            forall|j: int| 0 <= j < i ==> bind_refusal(#[trigger] values@[j]) is None,
        decreases values.len() - i,
    {
        match to_sql(&values[i]) {
            Ok(b) => {
                bound.push(b);
            },
            Err(m) => {
                assert(bind_refusal(values@[i as int]) == Some(m@));
                return Err(m);
            },
        }
        i += 1;
    }
    Ok(bound)
}

/// What came of preparing a statement.
pub enum Prepared {
    Ready,
    /// There was more than one statement.
    Several(String),
    /// It could not be prepared.
    Failed(String),
}

/// How a statement is run.
#[derive(Debug, PartialEq)]
pub enum Running {
    /// As one statement, whose rows are read.
    Query,
    /// As a script, statement by statement.
    Script,
    /// Not at all.
    Refused(String),
}

/// How a statement is run. A single statement may carry bound parameters and
/// return rows; a parameterless script may hold several statements, which is
/// what schema migrations look like.
///
/// Preparing a whole script fails as soon as one statement references something
/// an earlier one creates — the classic `create table` then `create index`
/// migration — so it is run statement by statement instead. Nothing has executed
/// at this point, so there is nothing to undo.
pub fn how_to_run(prepared: Prepared, with_values: bool) -> (r: Running)
    ensures
        match prepared {
            Prepared::Ready => r is Query,
            Prepared::Several(_) => if with_values {
                r matches Running::Refused(m) && m@
                    == "pass one statement at a time when using parameters"@
            } else {
                r is Script
            },
            Prepared::Failed(why) => if with_values {
                r matches Running::Refused(m) && m@ == why@
            } else {
                r is Script
            },
        },
{
    match prepared {
        Prepared::Ready => Running::Query,
        Prepared::Several(_) => if with_values {
            Running::Refused("pass one statement at a time when using parameters".to_owned())
        } else {
            Running::Script
        },
        Prepared::Failed(why) => if with_values {
            Running::Refused(why)
        } else {
            Running::Script
        },
    }
}

/// What is said of a script that failed: what the script said where that names
/// the offending statement, else why it could not be prepared.
pub fn script_failed(from_sqlite: bool, script: String, preparing: String) -> (r: String)
    ensures
        r == if from_sqlite {
            script
        } else {
            preparing
        },
{
    if from_sqlite {
        script
    } else {
        preparing
    }
}

/// A value in a row of a database.
pub enum Cell {
    Null,
    Integer(i64),
    /// A real number, as it is written.
    Real(String),
    Text(Vec<u8>),
    /// Bytes, of which only how many they are matters.
    Blob(usize),
}

/// A value in a row as it is shown.
#[derive(Debug, PartialEq)]
pub enum Shown {
    Null,
    Integer(i64),
    Real(String),
    Text(String),
}

/// Whether a value is shown as it is to be. Blobs are reported by size rather
/// than dumped into a JSON response.
pub open spec fn shows(shown: Shown, cell: Cell) -> bool {
    match cell {
        Cell::Null => shown is Null,
        Cell::Integer(i) => shown == Shown::Integer(i),
        Cell::Real(text) => shown matches Shown::Real(t) && t@ == text@,
        Cell::Text(bytes) => shown matches Shown::Text(t) && t@ == lossy(bytes@),
        Cell::Blob(n) => shown matches Shown::Text(t) && t@ == "<"@ + digits(n as nat)
            + " byte blob>"@,
    }
}

/// How a value is shown.
pub fn from_sql(cell: &Cell) -> (r: Shown)
    ensures
        shows(r, *cell),
{
    match cell {
        Cell::Null => Shown::Null,
        Cell::Integer(i) => Shown::Integer(*i),
        Cell::Real(text) => Shown::Real(text.clone()),
        Cell::Text(bytes) => Shown::Text(lossy_text(bytes.as_slice())),
        Cell::Blob(n) => Shown::Text(
            "<".to_owned().concat(decimal(*n as u64).as_str()).concat(" byte blob>"),
        ),
    }
}

/// What came of a statement.
#[derive(Debug)]
pub struct SqlOutcome {
    pub columns: Vec<String>,
    pub rows: Vec<Vec<Shown>>,
    pub truncated: bool,
    pub rows_affected: u64,
}

impl SqlOutcome {
    /// Whether no more rows are kept than may be.
    pub open spec fn wf(self) -> bool {
        self.rows.len() <= MAX_ROWS
    }

    /// An outcome without rows.
    pub fn new(columns: Vec<String>) -> (r: Self)
        ensures
            r.wf(),
            r.columns == columns,
            r.rows.len() == 0,
            !r.truncated,
            r.rows_affected == 0,
    {
        SqlOutcome { columns, rows: Vec::new(), truncated: false, rows_affected: 0 }
    }

    /// Takes the next row, where there is room for it; else notes that there was
    /// more. Returns whether to read on.
    pub fn take(&mut self, row: &Vec<Cell>) -> (more: bool)
        requires
            old(self).wf(),
        ensures
            final(self).wf(),
            final(self).columns == old(self).columns,
            final(self).rows_affected == old(self).rows_affected,
            more == (old(self).rows.len() < MAX_ROWS),
            final(self).truncated == (old(self).truncated || !more),
            if more {
                &&& final(self).rows.len() == old(self).rows.len() + 1
                &&& final(self).rows@.drop_last() == old(self).rows@
                &&& final(self).rows@.last().len() == row.len()
                &&& forall|i: int|
                    0 <= i < row.len() ==> shows(
                        #[trigger] final(self).rows@.last()@[i],
                        row@[i],
                    )
            } else {
                final(self).rows == old(self).rows
            },
    {
        if self.rows.len() >= MAX_ROWS {
            self.truncated = true;
            return false;
        }
        let mut shown: Vec<Shown> = Vec::new();
        let mut i: usize = 0;
        while i < row.len()
            invariant
                i <= row.len(),
                shown.len() == i,
                forall|j: int| 0 <= j < i ==> shows(#[trigger] shown@[j], row@[j]),
            decreases row.len() - i,
        {
            shown.push(from_sql(&row[i]));
            i += 1;
        }
        let ghost before = self.rows@;
        self.rows.push(shown);
        assert(self.rows@.drop_last() =~= before);
        true
    }

    /// Notes how many rows a statement changed, by how many had ever been
    /// changed before and after it.
    pub fn finish(&mut self, before: u64, after: u64)
        requires
            before <= after,
        ensures
            final(self).columns == old(self).columns,
            final(self).rows == old(self).rows,
            final(self).truncated == old(self).truncated,
            final(self).rows_affected == after - before,
    {
        self.rows_affected = after - before;
    }
}

/// An integer in decimal digits, with its sign where it is negative.
pub open spec fn signed(i: int) -> Seq<char> {
    if i < 0 {
        "-"@ + digits((-i) as nat)
    } else {
        digits(i as nat)
    }
}

/// An integer in decimal digits.
pub fn signed_text(i: i64) -> (r: String)
    ensures
        r@ == signed(i as int),
{
    if i >= 0 {
        decimal(i as u64)
    } else if i == i64::MIN {
        proof {
            assert(-(i as int) == 9_223_372_036_854_775_808u64 as int);
        }
        "-".to_owned().concat(decimal(9_223_372_036_854_775_808).as_str())
    } else {
        "-".to_owned().concat(decimal((-i) as u64).as_str())
    }
}

/// A shown value in JSON.
pub open spec fn cell_json(cell: Shown) -> Seq<char> {
    match cell {
        Shown::Null => "null"@,
        Shown::Integer(i) => signed(i as int),
        Shown::Real(text) => text@,
        Shown::Text(text) => json_string(text@),
    }
}

/// A list in JSON, of items that are JSON already.
pub open spec fn list_json(items: Seq<Seq<char>>) -> Seq<char> {
    "["@ + joined(items, ","@) + "]"@
}

/// The cells of a row in JSON.
pub open spec fn row_json(row: Vec<Shown>) -> Seq<char> {
    list_json(row@.map_values(|c: Shown| cell_json(c)))
}

/// The outcome of a statement in JSON.
pub open spec fn outcome_json(o: SqlOutcome) -> Seq<char> {
    "{\"columns\":"@ + list_json(o.columns@.map_values(|c: String| json_string(c@)))
        + ",\"rows\":"@ + list_json(o.rows@.map_values(|r: Vec<Shown>| row_json(r)))
        + ",\"rows_affected\":"@ + digits(o.rows_affected as nat) + ",\"truncated\":"@
        + if o.truncated {
        "true"@
    } else {
        "false"@
    } + "}"@
}

/// A list in JSON, of items that are JSON already.
pub fn list_text(items: &Vec<String>) -> (r: String)
    ensures
        r@ == list_json(texts(items@)),
{
    "[".to_owned().concat(join(items, ",").as_str()).concat("]")
}

/// A row in JSON.
fn row_text(row: &Vec<Shown>) -> (r: String)
    ensures
        r@ == row_json(*row),
{
    let mut items: Vec<String> = Vec::new();
    let mut i: usize = 0;
    while i < row.len()
        invariant
            i <= row.len(),
            items.len() == i,
            forall|j: int| 0 <= j < i ==> (#[trigger] items@[j])@ == cell_json(row@[j]),
        decreases row.len() - i,
    {
        let item: String = match &row[i] {
            Shown::Null => "null".to_owned(),
            Shown::Integer(n) => signed_text(*n),
            Shown::Real(text) => text.clone(),
            Shown::Text(text) => json_quote(text.as_str()),
        };
        items.push(item);
        i += 1;
    }
    assert(texts(items@) =~= row@.map_values(|c: Shown| cell_json(c)));
    list_text(&items)
}

/// The outcome of a statement in JSON.
pub fn to_json(o: &SqlOutcome) -> (r: String)
    ensures
        r@ == outcome_json(*o),
{
    let mut columns: Vec<String> = Vec::new();
    let mut i: usize = 0;
    while i < o.columns.len()
        invariant
            i <= o.columns.len(),
            columns.len() == i,
            forall|j: int| 0 <= j < i ==> (#[trigger] columns@[j])@ == json_string(o.columns@[j]@),
        decreases o.columns.len() - i,
    {
        columns.push(json_quote(o.columns[i].as_str()));
        i += 1;
    }
    assert(texts(columns@) =~= o.columns@.map_values(|c: String| json_string(c@)));
    let mut rows: Vec<String> = Vec::new();
    i = 0;
    while i < o.rows.len()
        invariant
            i <= o.rows.len(),
            rows.len() == i,
            forall|j: int| 0 <= j < i ==> (#[trigger] rows@[j])@ == row_json(o.rows@[j]),
        decreases o.rows.len() - i,
    {
        rows.push(row_text(&o.rows[i]));
        i += 1;
    }
    assert(texts(rows@) =~= o.rows@.map_values(|r: Vec<Shown>| row_json(r)));
    "{\"columns\":".to_owned().concat(list_text(&columns).as_str()).concat(",\"rows\":").concat(
        list_text(&rows).as_str(),
    ).concat(",\"rows_affected\":").concat(decimal(o.rows_affected).as_str()).concat(
        ",\"truncated\":",
    ).concat(
        if o.truncated {
            "true"
        } else {
            "false"
        },
    ).concat("}")
}

/// A slug does not end in a slash.
proof fn lemma_slug_end(s: Seq<char>)
    requires
        is_slug(s),
    ensures
        s.last() != '/',
{
    let pieces = split(s, '/');
    if s.last() == '/' {
        assert(pieces[pieces.len() - 1].len() == 0);
        assert(is_segment(pieces[pieces.len() - 1]));
    }
}

/// Why a handler's own statement was not answered.
#[derive(Debug, PartialEq)]
pub enum QueryError {
    /// It may not be run.
    Denied(String),
    /// It could not be run.
    Failed(String),
}

/// Why a handler's statement was not answered, by what the database said of it.
pub fn query_error(message: String) -> (r: QueryError)
    ensures
        r == if holds(message@, "not authorized"@) {
            QueryError::Denied(message)
        } else {
            QueryError::Failed(message)
        },
{
    if contains_str(message.as_str(), "not authorized") {
        QueryError::Denied(message)
    } else {
        QueryError::Failed(message)
    }
}

/// Whether a handler may use a database at all: why not, where the site has
/// them turned off.
pub fn may_query(databases: bool) -> (r: Result<(), QueryError>)
    ensures
        match r {
            Ok(()) => databases,
            Err(QueryError::Denied(m)) => !databases && m@ == "databases are not enabled"@,
            Err(QueryError::Failed(_)) => false,
        },
{
    if databases {
        Ok(())
    } else {
        Err(QueryError::Denied("databases are not enabled".to_owned()))
    }
}

/// Every app has its own database: no two of them share a file.
pub proof fn each_app_has_its_own_file(dir: Seq<char>, one: Seq<char>, other: Seq<char>)
    requires
        is_slug(one),
        is_slug(other),
        inside(inside(dir, one), "data.db"@) == inside(inside(dir, other), "data.db"@),
    ensures
        one == other,
{
    let a = inside(dir, one);
    let b = inside(dir, other);
    reveal_strlit("/");
    lemma_slug_end(one);
    lemma_slug_end(other);
    assert(a.last() == one.last() && b.last() == other.last());
    let x = inside(a, "data.db"@);
    let y = inside(b, "data.db"@);
    assert(x.len() == a.len() + 1 + "data.db"@.len());
    assert(y.len() == b.len() + 1 + "data.db"@.len());
    assert(a =~= x.take(a.len() as int));
    assert(b =~= y.take(b.len() as int));
    let n: int = if dir.len() == 0 || dir.last() == '/' {
        dir.len() as int
    } else {
        dir.len() as int + 1
    };
    assert(one =~= a.skip(n));
    assert(other =~= b.skip(n));
}

} // verus!
