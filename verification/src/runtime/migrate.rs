//! An app's own schema, versioned the way the platform's is.
//!
//! `create table if not exists` in a handler cannot evolve anything: add a
//! column next month and that statement quietly does nothing on every
//! database that already exists. So an app ships numbered migrations with its
//! source, and they run at deploy — each once, in order, in a transaction,
//! tracked by SQLite's own `user_version`.
//!
//! The platform never reads what they create. Tables, columns and meaning are
//! entirely the app's business; only the ladder is ours.
use crate::config::Config;
use crate::content::slug::{is_slug, valid_slug};
use crate::content::store::{beside, file_beside};
use crate::order::{is_order, is_ordered_from, order_is_unique, put_in_order};
use crate::text::{le, lemma_le_total, lemma_le_transitive, not_after, trim, trimmed};
use vstd::prelude::*;

verus! {

/// Where the migrations of an app are kept, if it can have any: a sidecar
/// rather than inside the app directory, so no spelling of a URL reaches an
/// app's DDL.
pub fn path(config: &Config, app: &str) -> (r: Option<String>)
    ensures
        match r {
            Some(p) => is_slug(app@) && p@ == beside(*config, app@, ".migrations"@),
            None => !is_slug(app@),
        },
{
    if valid_slug(app) {
        Some(file_beside(config, app, ".migrations"))
    } else {
        None
    }
}

/// The order of files by their names.
pub open spec fn by_name() -> spec_fn((String, String), (String, String)) -> bool {
    |a: (String, String), b: (String, String)| le(a.0@, b.0@)
}

/// Whether a list of files is another one in the order of their names, files of
/// one name left in the order they came in.
pub open spec fn is_ladder(ladder: Seq<(String, String)>, files: Seq<(String, String)>) -> bool {
    is_ordered_from(ladder, files, by_name())
}

/// Names are in an order.
proof fn lemma_by_name()
    ensures
        is_order(by_name()),
{
    let before = by_name();
    assert forall|x: (String, String), y: (String, String)| #[trigger]
        before(x, y) || before(y, x) by {
        lemma_le_total(x.0@, y.0@);
    }
    assert forall|x: (String, String), y: (String, String), z: (String, String)| #[trigger]
        before(x, y) && #[trigger] before(y, z) implies before(x, z) by {
        lemma_le_transitive(x.0@, y.0@, z.0@);
    }
}

/// Whether a file holds nothing to run.
pub open spec fn is_empty(file: (String, String)) -> bool {
    trimmed(file.1@).len() == 0
}

/// Whether every file holds something to run.
pub open spec fn none_empty(files: Seq<(String, String)>) -> bool {
    forall|i: int| 0 <= i < files.len() ==> !is_empty(#[trigger] files[i])
}

/// Whether a message names the first file, in the order of their names, that holds
/// nothing to run.
pub open spec fn names_first_empty(files: Seq<(String, String)>, m: Seq<char>) -> bool {
    exists|ladder: Seq<(String, String)>, i: int| #[trigger]
        is_ladder(ladder, files) && 0 <= i < ladder.len() && is_empty(#[trigger] ladder[i]) && (
        forall|j: int| 0 <= j < i ==> !is_empty(#[trigger] ladder[j])) && m == ladder[i].0@
            + " is empty"@
}

/// Puts files in the order of their names.
pub fn order(files: Vec<(String, String)>) -> (r: Vec<(String, String)>)
    ensures
        is_ladder(r@, files@),
{
    let test = |a: &(String, String), b: &(String, String)| -> (r: bool)
        ensures
            r == le(a.0@, b.0@)
    {
        not_after(a.0.as_str(), b.0.as_str())
    };
    proof {
        lemma_by_name();
    }
    put_in_order(files, test, Ghost(by_name()))
}

/// What is stored of the files an app ships: all of them, in the order their
/// names sort — `001_initial.sql`, `002_add_column.sql`. One with nothing in it
/// is rejected here rather than at the first request that needs a table.
pub fn store(app: &str, files: Vec<(String, String)>) -> (r: Result<Vec<(String, String)>, String>)
    ensures
        match r {
            Ok(ladder) => is_slug(app@) && is_ladder(ladder@, files@) && none_empty(ladder@),
            Err(m) => if !is_slug(app@) {
                m@ == "invalid app name '"@ + app@ + "'"@
            } else {
                names_first_empty(files@, m@)
            },
        },
{
    if !valid_slug(app) {
        return Err("invalid app name '".to_owned().concat(app).concat("'"));
    }
    let ladder = order(files);
    let mut i: usize = 0;
    while i < ladder.len()
        invariant
            i <= ladder.len(),
            is_slug(app@),
            is_ladder(ladder@, files@),
            forall|j: int| 0 <= j < i ==> !is_empty(#[trigger] ladder@[j]),
        decreases ladder.len() - i,
    {
        if trim(ladder[i].1.as_str()).as_str().is_empty() {
            assert(is_empty(ladder@[i as int]));
            return Err(ladder[i].0.clone().concat(" is empty"));
        }
        i += 1;
    }
    Ok(ladder)
}

/// How many steps ran, from a database's version before and after.
pub open spec fn steps_run(before: usize, after: usize) -> int {
    if after >= before {
        after - before
    } else {
        0
    }
}

/// Where a database got to and how many steps ran, from its version before and
/// after.
pub fn applied(before: usize, after: usize) -> (r: (usize, usize))
    ensures
        r.0 == after,
        r.1 == steps_run(before, after),
{
    let ran: usize = if after >= before {
        after - before
    } else {
        0
    };
    (after, ran)
}

/// What a deploy is told of a migration that failed.
pub fn failed(why: &str) -> (r: String)
    ensures
        r@ == "migration failed: "@ + why@,
{
    "migration failed: ".to_owned().concat(why)
}

/// The order that migrations run in is settled by the files: two lists that are
/// both it are the same.
pub proof fn ladder_is_unique(
    a: Seq<(String, String)>,
    b: Seq<(String, String)>,
    files: Seq<(String, String)>,
)
    requires
        is_ladder(a, files),
        is_ladder(b, files),
    ensures
        a == b,
{
    lemma_by_name();
    order_is_unique(a, b, files, by_name());
}

} // verus!
