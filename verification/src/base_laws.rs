//! What holds of replies and of tables: each law is about what a function is handed
//! and what it gives back.
use crate::config::Config;
use crate::reply::Reply;
use crate::table::Table;
use crate::text::{
    contains_char, ends_with, pairs, same, starts_with, strip_end, strip_start, stripped_end,
    stripped_start, trim_end, trim_start, trimmed_end, trimmed_start,
};
use crate::text_laws::is_tight;
use vstd::prelude::*;

verus! {

/// A reply has the status and the text it is made with, and says of what type the text
/// is.
pub proof fn a_reply_says_what_it_is(
    status: u16,
    kind: &str,
    text: &str,
    body: String,
    typed: Reply,
    plain: Reply,
    says: Reply,
    html: Reply,
    json: Reply,
)
    requires
        call_ensures(Reply::typed, (status, kind, body), typed),
        call_ensures(Reply::plain, (status, body), plain),
        call_ensures(Reply::says, (status, text), says),
        call_ensures(Reply::html, (status, body), html),
        call_ensures(Reply::json, (status, body), json),
    ensures
        typed.status == status && typed.body@ == body@ && pairs(typed.headers@) == seq![
            ("content-type"@, kind@),
        ],
        plain.status == status && plain.body@ == body@ && pairs(plain.headers@) == seq![
            ("content-type"@, "text/plain; charset=utf-8"@),
        ],
        says.status == status && says.body@ == text@ && pairs(says.headers@) == seq![
            ("content-type"@, "text/plain; charset=utf-8"@),
        ],
        html.status == status && html.body@ == body@ && pairs(html.headers@) == seq![
            ("content-type"@, "text/html; charset=utf-8"@),
        ],
        json.status == status && json.body@ == body@ && pairs(json.headers@) == seq![
            ("content-type"@, "application/json"@),
        ],
{
}

/// A reply that leads elsewhere says where, and nothing else; one more header stands
/// behind the others.
pub proof fn a_reply_leads_elsewhere(
    status: u16,
    place: &str,
    name: &str,
    value: &str,
    given: Reply,
    away: Reply,
    bare: Reply,
    more: Reply,
)
    requires
        call_ensures(Reply::elsewhere, (status, place), away),
        call_ensures(Reply::bare, (status,), bare),
        call_ensures(Reply::with, (given, name, value), more),
    ensures
        away.status == status && away.body@.len() == 0 && pairs(away.headers@) == seq![
            ("location"@, place@),
        ],
        bare.status == status && bare.body@.len() == 0 && bare.headers.len() == 0,
        more.status == given.status && more.body@ == given.body@ && pairs(more.headers@) == pairs(
            given.headers@,
        ).push((name@, value@)),
{
    assert(pairs(bare.headers@).len() == bare.headers.len());
}

/// What is put into a table is found there until it is taken out or replaced, and what
/// else there is stays.
pub proof fn what_is_put_into_a_table_is_found(
    table: &mut Table<u64>,
    less: &mut Table<u64>,
    after: Table<u64>,
    name: String,
    given: &str,
    other: &str,
    value: u64,
    had: Option<u64>,
    took: Option<u64>,
    found: Option<&u64>,
    there: bool,
    k: Seq<char>,
)
    requires
        given@ == name@,
        call_ensures(Table::<u64>::insert, (table, name, value), had),
        after@ == final(table)@,
        call_ensures(Table::<u64>::get, (&after, given), found),
        call_ensures(Table::<u64>::contains, (&after, other), there),
        call_ensures(Table::<u64>::remove, (less, given), took),
    ensures
        found matches Some(v) && *v == value,
        had is Some == old(table)@.contains_key(name@),
        other@ != name@ ==> there == old(table)@.contains_key(other@),
        k != name@ && old(table)@.contains_key(k) ==> after@[k] == old(table)@[k],
        !final(less)@.contains_key(given@),
        took is Some == old(less)@.contains_key(given@),
        k != given@ ==> final(less)@.contains_key(k) == old(less)@.contains_key(k),
{
}

/// Texts are compared character by character, and a text begins and ends with what it
/// is made of.
pub proof fn how_texts_are_compared(
    a: Seq<char>,
    b: Seq<char>,
    whole: &str,
    first: &str,
    last: &str,
    c: char,
    alike: bool,
    begins: bool,
    ends: bool,
    there: bool,
)
    requires
        whole@ == a + b,
        first@ == a,
        last@ == b,
        call_ensures(same, (whole, first), alike),
        call_ensures(starts_with, (whole, first), begins),
        call_ensures(ends_with, (whole, last), ends),
        call_ensures(contains_char, (whole, c), there),
    ensures
        begins && ends,
        alike == (b.len() == 0),
        there == exists|i: int| 0 <= i < whole@.len() && #[trigger] whole@[i] == c,
{
    let s = whole@;
    assert(s.subrange(0, a.len() as int) =~= a);
    assert(s.subrange(a.len() as int, s.len() as int) =~= b);
    if b.len() == 0 {
        assert(s =~= a);
    } else {
        assert(s.len() != a.len());
    }
}

/// Blanks are taken off the end that is asked for, and only there.
pub proof fn one_end_is_trimmed(
    blank: char,
    inner: Seq<char>,
    front: &str,
    back: &str,
    a: String,
    b: String,
    x: String,
    y: String,
)
    requires
        blank == ' ' || blank == '\n' || blank == '\t',
        is_tight(inner),
        front@ == seq![blank] + inner,
        back@ == inner.push(blank),
        call_ensures(trim_start, (front,), a),
        call_ensures(trim_start, (back,), b),
        call_ensures(trim_end, (front,), x),
        call_ensures(trim_end, (back,), y),
    ensures
        a@ == inner,
        b@ == back@,
        x@ == front@,
        y@ == inner,
{
    reveal_with_fuel(trimmed_start, 2);
    reveal_with_fuel(trimmed_end, 2);
    assert(front@.skip(1) =~= inner);
    assert(back@.drop_last() =~= inner);
    assert(back@[0] == inner[0]);
    assert(front@.last() == inner.last());
}

/// A character is taken off the end that is asked for, and only there.
pub proof fn one_end_is_stripped(
    c: char,
    set: &str,
    inner: Seq<char>,
    both: &str,
    a: String,
    b: String,
)
    requires
        set@ == seq![c],
        inner.len() > 0,
        inner[0] != c,
        inner.last() != c,
        both@ == seq![c] + inner + seq![c],
        call_ensures(strip_start, (both, set), a),
        call_ensures(strip_end, (both, set), b),
    ensures
        a@ == inner + seq![c],
        b@ == seq![c] + inner,
{
    reveal_with_fuel(stripped_start, 2);
    reveal_with_fuel(stripped_end, 2);
    let s = both@;
    assert(seq![c][0] == c);
    assert(seq![c].contains(s[0]));
    assert(seq![c].contains(s.last()));
    assert(s.skip(1) =~= inner + seq![c]);
    assert(s.drop_last() =~= seq![c] + inner);
    assert(!seq![c].contains((inner + seq![c])[0]));
    assert(!seq![c].contains((seq![c] + inner).last()));
}

/// An instance for one token has no public URL and no OAuth client.
pub proof fn a_local_instance_takes_one_token(
    dir: String,
    token: &str,
    databases: bool,
    r: Config,
)
    requires
        call_ensures(Config::local, (dir, token, databases), r),
    ensures
        r.data_dir@ == dir@,
        r.base_url is None && r.oauth is None,
        r.valid_tokens.len() == 1 && r.valid_tokens@[0]@ == token@,
        r.databases == databases,
{
}

} // verus!
