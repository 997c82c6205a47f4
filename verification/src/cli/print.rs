//! How the server's answers are shown in a shell.
use crate::text::{decimal, digits, join, joined, texts, to_chars};
use vstd::prelude::*;

verus! {

/// A text with spaces behind it, as wide as asked for or wider.
pub open spec fn padded(s: Seq<char>, width: nat) -> Seq<char> {
    s + spaces(
        if s.len() < width {
            (width - s.len()) as nat
        } else {
            0
        },
    )
}

/// As many spaces as asked for.
pub open spec fn spaces(n: nat) -> Seq<char> {
    Seq::new(n, |i: int| ' ')
}

/// A text with spaces behind it, as wide as asked for or wider.
fn pad(s: &str, width: usize) -> (r: String)
    ensures
        r@ == padded(s@, width as nat),
{
    let n: usize = to_chars(s).len();
    let missing: usize = if n < width {
        width - n
    } else {
        0
    };
    let mut r: String = s.to_owned();
    let mut i: usize = 0;
    assert(r@ =~= s@ + spaces(0));
    while i < missing
        invariant
            i <= missing,
            r@ == s@ + spaces(i as nat),
        decreases missing - i,
    {
        r.push(' ');
        i += 1;
        assert(r@ =~= s@ + spaces(i as nat));
    }
    r
}

/// What the server said of a page.
pub struct PageLine {
    pub slug: Option<String>,
    pub title: Option<String>,
    pub modified: Option<String>,
    pub hidden: Option<bool>,
    pub listed: Option<bool>,
}

/// A text, or another where there is none.
pub open spec fn or_else(s: Option<String>, other: Seq<char>) -> Seq<char> {
    match s {
        Some(s) => s@,
        None => other,
    }
}

/// What sets a page apart, in brackets.
pub open spec fn page_flags(page: PageLine) -> Seq<char> {
    if page.hidden == Some(true) && page.listed == Some(false) {
        "  [hidden, unlisted]"@
    } else if page.hidden == Some(true) {
        "  [hidden]"@
    } else if page.listed == Some(false) {
        "  [unlisted]"@
    } else {
        ""@
    }
}

/// How a page is shown.
pub open spec fn shown_page(page: PageLine) -> Seq<char> {
    padded(or_else(page.slug, "?"@), 28) + " "@ + padded(or_else(page.modified, ""@), 10) + " "@
        + or_else(page.title, ""@) + page_flags(page)
}

/// A text, or another where there is none.
fn or_text<'a>(s: &'a Option<String>, other: &'a str) -> (r: &'a str)
    ensures
        r@ == or_else(*s, other@),
{
    match s {
        Some(s) => s.as_str(),
        None => other,
    }
}

/// How a page is shown.
pub fn page_row(page: &PageLine) -> (r: String)
    ensures
        r@ == shown_page(*page),
{
    let hidden: bool = match page.hidden {
        Some(b) => b,
        None => false,
    };
    let unlisted: bool = match page.listed {
        Some(b) => !b,
        None => false,
    };
    let flags: &str = if hidden && unlisted {
        "  [hidden, unlisted]"
    } else if hidden {
        "  [hidden]"
    } else if unlisted {
        "  [unlisted]"
    } else {
        ""
    };
    pad(or_text(&page.slug, "?"), 28).concat(" ").concat(
        pad(or_text(&page.modified, ""), 10).as_str(),
    ).concat(" ").concat(or_text(&page.title, "")).concat(flags)
}

/// How pages are shown, one on each line.
pub fn print_pages(pages: &Vec<PageLine>) -> (r: Vec<String>)
    ensures
        texts(r@) == pages@.map_values(|p: PageLine| shown_page(p)),
{
    let mut r: Vec<String> = Vec::new();
    let mut i: usize = 0;
    while i < pages.len()
        invariant
            i <= pages.len(),
            r.len() == i,
            forall|j: int| 0 <= j < i ==> (#[trigger] r@[j])@ == shown_page(pages@[j]),
        decreases pages.len() - i,
    {
        r.push(page_row(&pages[i]));
        i += 1;
    }
    assert(texts(r@) =~= pages@.map_values(|p: PageLine| shown_page(p)));
    r
}

/// A value in the outcome of a statement.
pub enum Value {
    Null,
    Text(String),
    /// Anything else, as JSON writes it.
    Other(String),
}

/// How a value is shown.
pub open spec fn shown_value(value: Value) -> Seq<char> {
    match value {
        Value::Null => "NULL"@,
        Value::Text(s) => s@,
        Value::Other(s) => s@,
    }
}

/// How a value is shown.
pub fn render_cell(value: &Value) -> (r: String)
    ensures
        r@ == shown_value(*value),
{
    match value {
        Value::Null => "NULL".to_owned(),
        Value::Text(s) => s.clone(),
        Value::Other(s) => s.clone(),
    }
}

/// The outcome of a statement as the server told it.
pub struct Rows {
    pub columns: Vec<String>,
    pub rows: Vec<Vec<Value>>,
    pub truncated: bool,
    pub rows_affected: u64,
}

/// How a row is shown.
pub open spec fn shown_row(row: Vec<Value>) -> Seq<char> {
    joined(row@.map_values(|v: Value| shown_value(v)), "\t"@)
}

/// How the outcome of a statement is shown: the columns where there are any, the
/// rows, that there was more, and how many rows changed where none are shown.
pub open spec fn shown_rows(o: Rows) -> Seq<Seq<char>> {
    let head = if o.columns.len() == 0 {
        Seq::<Seq<char>>::empty()
    } else {
        seq![joined(texts(o.columns@), "\t"@)]
    };
    let truncated = if o.truncated {
        seq!["… truncated at the server's row cap"@]
    } else {
        Seq::<Seq<char>>::empty()
    };
    let affected = if o.rows.len() == 0 {
        seq![digits(o.rows_affected as nat) + " row(s) affected"@]
    } else {
        Seq::<Seq<char>>::empty()
    };
    head + o.rows@.map_values(|row: Vec<Value>| shown_row(row)) + truncated + affected
}

/// How a row is shown.
fn row_line(row: &Vec<Value>) -> (r: String)
    ensures
        r@ == shown_row(*row),
{
    let mut cells: Vec<String> = Vec::new();
    let mut i: usize = 0;
    while i < row.len()
        invariant
            i <= row.len(),
            cells.len() == i,
            forall|j: int| 0 <= j < i ==> (#[trigger] cells@[j])@ == shown_value(row@[j]),
        decreases row.len() - i,
    {
        cells.push(render_cell(&row[i]));
        i += 1;
    }
    assert(texts(cells@) =~= row@.map_values(|v: Value| shown_value(v)));
    join(&cells, "\t")
}

/// How the outcome of a statement is shown, line by line.
pub fn print_rows(o: &Rows) -> (r: Vec<String>)
    ensures
        texts(r@) == shown_rows(*o),
{
    let mut r: Vec<String> = Vec::new();
    if o.columns.len() > 0 {
        r.push(join(&o.columns, "\t"));
    }
    let ghost head = texts(r@);
    let ghost all = o.rows@.map_values(|row: Vec<Value>| shown_row(row));
    proof {
        assert(head =~= if o.columns.len() == 0 {
            Seq::<Seq<char>>::empty()
        } else {
            seq![joined(texts(o.columns@), "\t"@)]
        });
        assert(head + all.take(0) =~= head);
    }
    let mut i: usize = 0;
    while i < o.rows.len()
        invariant
            i <= o.rows.len(),
            all == o.rows@.map_values(|row: Vec<Value>| shown_row(row)),
            texts(r@) == head + all.take(i as int),
        decreases o.rows.len() - i,
    {
        let line = row_line(&o.rows[i]);
        let ghost before = r@;
        let ghost l = line@;
        r.push(line);
        i += 1;
        assert(texts(r@) =~= texts(before).push(l));
        assert(texts(r@) =~= head + all.take(i as int));
    }
    let ghost shown = r@;
    proof {
        assert(all.take(all.len() as int) =~= all);
    }
    if o.truncated {
        r.push("… truncated at the server's row cap".to_owned());
    }
    let ghost noted = r@;
    if o.rows.len() == 0 {
        r.push(decimal(o.rows_affected).concat(" row(s) affected"));
    }
    proof {
        assert(texts(noted) =~= texts(shown) + if o.truncated {
            seq!["… truncated at the server's row cap"@]
        } else {
            Seq::<Seq<char>>::empty()
        });
        assert(texts(r@) =~= texts(noted) + if o.rows.len() == 0 {
            seq![digits(o.rows_affected as nat) + " row(s) affected"@]
        } else {
            Seq::<Seq<char>>::empty()
        });
    }
    r
}

} // verus!
