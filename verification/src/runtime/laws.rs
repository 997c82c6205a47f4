//! What holds of an app's database, its migrations, the calls it may make and the
//! modules that are kept.
use crate::config::Config;
use crate::content::slug::is_slug;
use crate::content::store::inside;
use crate::encode::json_string;
use crate::runtime::db::{
    bind, db_path, deny_escapes, from_sql, how_to_run, list_text, may_query, query_error,
    script_failed, to_json, to_sql, Action, Bound, Cell, Given, Prepared, QueryError, Running,
    Shown, SqlOutcome,
};
use crate::runtime::migrate::{applied, order, path, store};
use crate::runtime::outbound::{
    allowed, check_addresses, check_parsed, covers, fetched, hosts_own, internal, is_internal,
    outgoing, passed_on, Fetched, Ip, Lookup, Refusal, UrlParts,
};
use crate::runtime::wasm::{Guards, ModuleCache};
use crate::text::{decimal, digits, holds, join, joined, le, lossy, lowered, pairs, texts, trimmed};
use vstd::prelude::*;

verus! {

/// A truth value is bound as a number: true as one, false as zero, so that two
/// that differ are never bound alike.
pub proof fn truth_is_bound_as_a_number(b: bool, value: Given, r: Result<Bound, String>)
    requires
        value == Given::Bool(b),
        call_ensures(to_sql, (&value,), r),
    ensures
        r matches Ok(Bound::Integer(n)) && (n == 0 || n == 1) && (n == 1) == b,
{
}

/// What is given is what is bound: nothing as nothing, an integer as the same
/// integer, a real number as it is written, a text as the same text. A list or an
/// object is refused, and so is a number that is neither.
pub proof fn what_is_given_is_bound(value: Given, r: Result<Bound, String>)
    requires
        call_ensures(to_sql, (&value,), r),
    ensures
        match value {
            Given::Null => r matches Ok(b) && b is Null,
            Given::Bool(b) => r == Ok::<Bound, String>(Bound::Integer(b as i64)),
            Given::Number { integer, is_real, text } => match integer {
                Some(i) => r == Ok::<Bound, String>(Bound::Integer(i)),
                None => if is_real {
                    r matches Ok(Bound::Real(t)) && t@ == text@
                } else {
                    r is Err
                },
            },
            Given::Text(text) => r matches Ok(Bound::Text(t)) && t@ == text@,
            Given::Other(_) => r is Err,
        },
{
}

/// What is read back of what was bound is what was given: an integer, a real
/// number and nothing come back as they were, and a truth value as zero or one.
pub proof fn what_is_bound_is_read_back(value: Given, bound: Bound, cell: Cell, r: Shown)
    requires
        call_ensures(to_sql, (&value,), Ok(bound)),
        match bound {
            Bound::Null => cell is Null,
            Bound::Integer(i) => cell == Cell::Integer(i),
            Bound::Real(t) => cell == Cell::Real(t),
            Bound::Text(t) => cell matches Cell::Text(bytes) && lossy(bytes@) == t@,
        },
        call_ensures(from_sql, (&cell,), r),
    ensures
        value is Null ==> r is Null,
        value matches Given::Bool(b) ==> r == Shown::Integer(b as i64),
        value matches Given::Number { integer: Some(i), .. } ==> r == Shown::Integer(i),
        value matches Given::Text(t) ==> (r matches Shown::Text(s) && s@ == t@),
{
}

/// A blob is shown by how many bytes it has.
pub proof fn a_blob_is_shown_by_its_size(n: usize, cell: Cell, r: Shown)
    requires
        cell == Cell::Blob(n),
        call_ensures(from_sql, (&cell,), r),
    ensures
        r matches Shown::Text(t) && t@ == "<"@ + digits(n as nat) + " byte blob>"@,
{
}

/// Nothing that could reach outside an app's own file may be done, and anything
/// else may.
pub proof fn a_statement_stays_in_its_file(action: Action, r: bool)
    requires
        call_ensures(deny_escapes, (action,), r),
    ensures
        action is Attach || action is Detach || action is Pragma ==> !r,
        action is Other ==> r,
{
}

/// Several statements run only as a script, and a script takes no values; what
/// cannot be prepared is refused only where values were given.
pub proof fn values_go_with_one_statement(prepared: Prepared, with_values: bool, r: Running)
    requires
        call_ensures(how_to_run, (prepared, with_values), r),
    ensures
        prepared is Ready ==> r is Query,
        !(prepared is Ready) && with_values ==> r is Refused,
        !(prepared is Ready) && !with_values ==> r is Script,
{
}

/// Whether two values are shown alike.
pub open spec fn alike(a: Shown, b: Shown) -> bool {
    match a {
        Shown::Null => b is Null,
        Shown::Integer(i) => b == Shown::Integer(i),
        Shown::Real(t) => b matches Shown::Real(u) && u@ == t@,
        Shown::Text(t) => b matches Shown::Text(u) && u@ == t@,
    }
}

/// Rows are taken as they come, up to a thousand; one more is not kept, but it is
/// said that there was more.
pub proof fn a_thousand_rows_are_kept(o: &mut SqlOutcome, row: Vec<Cell>, r: bool)
    requires
        old(o).wf(),
        call_ensures(SqlOutcome::take, (o, &row), r),
    ensures
        old(o).rows.len() < 1_000 ==> r && final(o).rows.len() == old(o).rows.len() + 1
            && final(o).rows@.drop_last() == old(o).rows@ && final(o).rows@.last().len() == row.len()
            && final(o).truncated == old(o).truncated,
        forall|i: int, x: Shown|
            #![trigger call_ensures(from_sql, (&row@[i],), x)]
            0 <= i < row.len() && old(o).rows.len() < 1_000 && call_ensures(
                from_sql,
                (&row@[i],),
                x,
            ) ==> alike(final(o).rows@.last()@[i], x),
        old(o).rows.len() >= 1_000 ==> !r && final(o).rows == old(o).rows && final(o).truncated,
{
}

/// A handler is told apart what it may not do from what did not work; and without
/// databases it may do nothing.
pub proof fn refused_and_failed_are_told_apart(
    message: String,
    databases: bool,
    r: QueryError,
    m: Result<(), QueryError>,
)
    requires
        call_ensures(query_error, (message,), r),
        call_ensures(may_query, (databases,), m),
    ensures
        r is Denied == holds(message@, "not authorized"@),
        r matches QueryError::Denied(t) ==> t == message,
        r matches QueryError::Failed(t) ==> t == message,
        m is Ok == databases,
        m matches Err(e) ==> e is Denied,
{
}

/// An address of version 4 as one number.
pub open spec fn number_of(a: u8, b: u8, c: u8, d: u8) -> int {
    a * 0x100_0000 + b * 0x1_0000 + c * 0x100 + d
}

/// Which addresses of version 4 no app may reach, as ranges of numbers: 10/8,
/// 100.64/10, 127/8, 169.254/16, 172.16/12, 192.0.0/24, 192.0.2/24, 192.168/16,
/// 198.18/15, 198.51.100/24, 203.0.113/24, and the first and the last of all.
pub proof fn private_addresses_by_their_numbers(a: u8, b: u8, c: u8, d: u8, ip: Ip, r: bool)
    requires
        ip == Ip::V4(a, b, c, d),
        call_ensures(is_internal, (&ip,), r),
    ensures
        r == ({
            let n = number_of(a, b, c, d);
            ||| 0x0a00_0000 <= n <= 0x0aff_ffff
            ||| 0x6440_0000 <= n <= 0x647f_ffff
            ||| 0x7f00_0000 <= n <= 0x7fff_ffff
            ||| 0xa9fe_0000 <= n <= 0xa9fe_ffff
            ||| 0xac10_0000 <= n <= 0xac1f_ffff
            ||| 0xc000_0000 <= n <= 0xc000_00ff
            ||| 0xc000_0200 <= n <= 0xc000_02ff
            ||| 0xc0a8_0000 <= n <= 0xc0a8_ffff
            ||| 0xc612_0000 <= n <= 0xc613_ffff
            ||| 0xc633_6400 <= n <= 0xc633_64ff
            ||| 0xcb00_7100 <= n <= 0xcb00_71ff
            ||| n == 0
            ||| n == 0xffff_ffff
        }),
{
}

/// Of version 6, loopback, unspecified, unique local and link local addresses may
/// not be reached; the addresses of the open internet may.
pub proof fn private_addresses_of_version_six(
    s: (u16, u16, u16, u16, u16, u16, u16, u16),
    ip: Ip,
    r: bool,
)
    requires
        ip == Ip::V6(s.0, s.1, s.2, s.3, s.4, s.5, s.6, s.7),
        call_ensures(is_internal, (&ip,), r),
    ensures
        s.0 / 0x200 == 126 ==> r,
        s.0 / 0x40 == 1018 ==> r,
        s == (0u16, 0u16, 0u16, 0u16, 0u16, 0u16, 0u16, 0u16) ==> r,
        s == (0u16, 0u16, 0u16, 0u16, 0u16, 0u16, 0u16, 1u16) ==> r,
        0x2000 <= s.0 <= 0x3fff ==> !r,
        s.0 / 0x200 != 126 && s.0 / 0x40 != 1018 && (s.0 != 0 || s.1 != 0 || s.2 != 0 || s.3 != 0
            || s.4 != 0 || s.5 != 0 && s.5 != 0xffff || s.5 == 0 && (s.6 != 0 || s.7 > 1)) ==> !r,
{
}

/// An address of version 4 that is written as one of version 6 may be reached where it
/// may be reached as it is.
pub proof fn an_address_goes_where_it_goes(
    a: u8,
    b: u8,
    c: u8,
    d: u8,
    s: (u16, u16),
    plain: Ip,
    mapped: Ip,
    r: bool,
    m: bool,
)
    requires
        plain == Ip::V4(a, b, c, d),
        mapped == Ip::V6(0, 0, 0, 0, 0, 0xffff, s.0, s.1),
        s.0 == a * 256 + b,
        s.1 == c * 256 + d,
        call_ensures(is_internal, (&plain,), r),
        call_ensures(is_internal, (&mapped,), m),
    ensures
        r == m,
{
}

/// An entry with a wildcard covers the names below its own, however deep, whatever the
/// case, and neither the name itself nor one that only ends like it.
pub proof fn a_wildcard_covers_what_is_below(
    host: &str,
    entry: Vec<String>,
    name: Seq<char>,
    label: Seq<char>,
    r: bool,
)
    requires
        entry.len() == 1,
        lowered(trimmed(entry@[0]@)) == "*."@ + name,
        call_ensures(allowed, (host, &entry), r),
    ensures
        lowered(host@) == label + "."@ + name ==> r,
        lowered(host@) == name ==> !r,
        lowered(host@) == label + name && label.len() > 0 && label.last() != '.' ==> !r,
{
    reveal_strlit("*.");
    reveal_strlit(".");
    let list = texts(entry@);
    assert(list[0] == entry@[0]@);
    let low = lowered(trimmed(list[0]));
    let h = lowered(host@);
    assert(low.subrange(0, 2) =~= "*."@);
    assert(low.skip(2) =~= name);
    let tail = "."@ + name;
    if h == label + "."@ + name {
        assert(h.subrange(h.len() - tail.len(), h.len() as int) =~= tail);
        assert(covers(list[0], host@));
    }
    if h == label + name && label.len() > 0 && label.last() != '.' {
        if tail.is_suffix_of(h) {
            assert(h.subrange(h.len() - tail.len(), h.len() as int)[0] == tail[0]);
            assert(h[label.len() - 1] == '.');
        }
    }
}

/// An allowlist means what it says: a host is allowed where it is written in the
/// list, whatever the case and the space around it, and nothing else is by an entry
/// without a wildcard; more entries never allow less.
pub proof fn an_allowlist_means_what_it_says(
    host: &str,
    one: Vec<String>,
    more: Vec<String>,
    r: bool,
    s: bool,
    k: int,
)
    requires
        call_ensures(allowed, (host, &one), r),
        call_ensures(allowed, (host, &more), s),
        forall|i: int| 0 <= i < one.len() ==> #[trigger] more@.contains(one@[i]),
        0 <= k < one.len(),
    ensures
        r ==> s,
        !"*."@.is_prefix_of(lowered(trimmed(one@[k]@))) && lowered(trimmed(one@[k]@)) == lowered(
            host@,
        ) ==> r,
        one.len() == 1 && !"*."@.is_prefix_of(lowered(trimmed(one@[0]@))) ==> r == (lowered(
            trimmed(one@[0]@),
        ) == lowered(host@)),
{
    let a = texts(one@);
    let b = texts(more@);
    assert(a[k] == one@[k]@);
    if r {
        let i = choose|i: int| 0 <= i < a.len() && covers(#[trigger] a[i], host@);
        assert(more@.contains(one@[i]));
        let j = more@.index_of(one@[i]);
        assert(b[j] == a[i]);
    }
}

/// Without an allowlist no host is allowed.
pub proof fn an_empty_allowlist_allows_nothing(host: &str, none: Vec<String>, r: bool)
    requires
        none.len() == 0,
        call_ensures(allowed, (host, &none), r),
    ensures
        !r,
{
}

/// A URL is fetched only over HTTP, only from a host that the app named, and never
/// from an address inside; a name is looked up first, at the port of the URL or
/// else at that of HTTPS.
pub proof fn what_is_decided_of_a_url(
    url: &str,
    parts: UrlParts,
    allow: Vec<String>,
    host: &str,
    named: bool,
    r: Result<Option<Lookup>, Refusal>,
)
    requires
        parts.host matches Some(h) && h@ == host@,
        call_ensures(allowed, (host, &allow), named),
        call_ensures(check_parsed, (url, Some(parts), &allow), r),
    ensures
        parts.scheme@ != "http"@ && parts.scheme@ != "https"@ ==> (r matches Err(e) && e is BadUrl),
        parts.scheme@ == "http"@ || parts.scheme@ == "https"@ ==> {
            &&& !named ==> (r matches Err(e) && e is NotAllowed)
            &&& named && (parts.literal matches Some(ip) && internal(ip)) ==> (r matches Err(e) && e
                is Internal)
            &&& named && (parts.literal matches Some(ip) && !internal(ip)) ==> (r matches Ok(l) && l
                is None)
            &&& named && parts.literal is None ==> (r matches Ok(Some(l)) && l.host@ == host@
                && match parts.port {
                Some(port) => l.port == port,
                None => l.port == 443,
            })
        },
{
}

/// One address inside is enough to refuse a name, wherever among the others it
/// stands; a name whose addresses are all outside passes; and one that has none
/// does not.
pub proof fn every_address_is_looked_at(
    host: &str,
    all: Vec<Ip>,
    r: Result<(), Refusal>,
    none: Result<(), Refusal>,
)
    requires
        call_ensures(check_addresses, (host, Some(&all)), r),
        call_ensures(check_addresses, (host, None), none),
    ensures
        none is Err,
        all.len() == 0 ==> r is Err,
        (exists|i: int| 0 <= i < all.len() && internal(#[trigger] all@[i])) ==> (r matches Err(e)
            && e is Internal),
        all.len() > 0 && (forall|i: int| 0 <= i < all.len() ==> !internal(#[trigger] all@[i]))
            ==> r is Ok,
{
}

/// What a handler sends is sent, but for the headers that are the host's to set;
/// and where it does not introduce itself, the server does, once.
pub proof fn a_handlers_headers_are_sent(
    headers: Vec<(String, String)>,
    r: Vec<(String, String)>,
    h: (Seq<char>, Seq<char>),
)
    requires
        call_ensures(outgoing, (&headers,), r),
    ensures
        lowered(h.0) != "user-agent"@ ==> pairs(r@).contains(h) == (pairs(headers@).contains(h)
            && lowered(h.0) != "host"@ && lowered(h.0) != "content-length"@ && lowered(h.0)
            != "connection"@ && lowered(h.0) != "transfer-encoding"@),
        (exists|i: int|
            0 <= i < headers.len() && lowered((#[trigger] headers@[i]).0@) == "user-agent"@)
            ==> r.len() <= headers.len(),
        lowered(h.0) == "user-agent"@ && pairs(headers@).contains(h) ==> pairs(r@).contains(h),
        !(exists|i: int|
            0 <= i < headers.len() && lowered((#[trigger] headers@[i]).0@) == "user-agent"@)
            ==> pairs(r@).len() > 0 && pairs(r@)[0] == ("user-agent"@, "toolsite/0.1.0"@),
{
    let hs = pairs(headers@);
    lemma_passed(hs, h);
    reveal_strlit("user-agent");
    reveal_strlit("host");
    reveal_strlit("content-length");
    reveal_strlit("connection");
    reveal_strlit("transfer-encoding");
    assert("user-agent"@[0] == 'u' && "connection"@[0] == 'c');
    if pairs(headers@).contains(h) && lowered(h.0) == "user-agent"@ {
        assert(!hosts_own(h.0));
        let i = hs.index_of(h);
        assert(lowered(hs[i].0) == "user-agent"@);
    }
    let kept = passed_on(hs);
    let named = crate::runtime::outbound::introduces(hs);
    assert(named == exists|i: int|
        0 <= i < headers.len() && lowered((#[trigger] headers@[i]).0@) == "user-agent"@) by {
        if named {
            let i = choose|i: int| 0 <= i < hs.len() && lowered(#[trigger] hs[i].0) == "user-agent"@;
            assert(hs[i].0 == headers@[i].0@);
        }
        if exists|i: int|
            0 <= i < headers.len() && lowered((#[trigger] headers@[i]).0@) == "user-agent"@ {
            let i = choose|i: int|
                0 <= i < headers.len() && lowered((#[trigger] headers@[i]).0@) == "user-agent"@;
            assert(hs[i].0 == headers@[i].0@);
        }
    }
    assert(pairs(r@).len() == r@.len());
    if !named {
        let own = ("user-agent"@, crate::runtime::outbound::USER_AGENT@);
        let all = seq![own] + kept;
        assert(pairs(r@) == all);
        assert(lowered("user-agent"@) == "user-agent"@) by {
            reveal_strlit("user-agent");
            assert(lowered("user-agent"@) =~= "user-agent"@);
        }
        if kept.contains(h) {
            let i = kept.index_of(h);
            assert(all[i + 1] == h);
        }
        if all.contains(h) && h.0 != "user-agent"@ {
            let i = all.index_of(h);
            assert(kept[i - 1] == h);
        }
    }
}

/// Which headers are passed on.
proof fn lemma_passed(headers: Seq<(Seq<char>, Seq<char>)>, h: (Seq<char>, Seq<char>))
    ensures
        passed_on(headers).contains(h) == (headers.contains(h) && !hosts_own(h.0)),
        passed_on(headers).len() <= headers.len(),
    decreases headers.len(),
{
    if headers.len() > 0 {
        let front = headers.drop_last();
        let last = headers.last();
        lemma_passed(front, h);
        assert(headers =~= front.push(last));
        if front.contains(h) {
            let i = front.index_of(h);
            assert(headers[i] == h);
        }
        if headers.contains(h) && last != h {
            let i = headers.index_of(h);
            assert(front[i] == h);
        }
        if last == h {
            assert(headers[headers.len() - 1] == h);
        }
        let kept = passed_on(front);
        if !hosts_own(last.0) {
            let all = kept.push(last);
            if kept.contains(h) {
                let i = kept.index_of(h);
                assert(all[i] == h);
            }
            if last == h {
                assert(all[kept.len() as int] == h);
            }
            if all.contains(h) && last != h {
                let i = all.index_of(h);
                assert(kept[i] == h);
            }
        }
    }
}

/// What came back is handed to the handler whole, up to eight megabytes.
pub proof fn an_answer_of_eight_megabytes_is_handed_on(
    status: u16,
    headers: Vec<(String, String)>,
    body: Vec<u8>,
    r: Result<Fetched, String>,
)
    requires
        call_ensures(fetched, (status, headers, body), r),
    ensures
        body.len() <= 8_388_608 ==> (r matches Ok(f) && f.status == status && f.headers == headers
            && f.body == body),
        body.len() > 8_388_608 ==> r is Err,
{
}

/// Migrations run in the order of their names, whatever order they came in, and
/// none is left out.
pub proof fn migrations_run_by_name(
    files: Vec<(String, String)>,
    r: Vec<(String, String)>,
    i: int,
    j: int,
)
    requires
        call_ensures(order, (files,), r),
        0 <= i < j < r.len(),
    ensures
        le(r@[i].0@, r@[j].0@),
        r.len() == files.len(),
        forall|f: (String, String)| #[trigger] r@.contains(f) == files@.contains(f),
{
    let before = crate::runtime::migrate::by_name();
    assert(before(r@[i], r@[j]));
    assert forall|f: (String, String)| #[trigger] r@.contains(f) == files@.contains(f) by {
        lemma_same_members(r@, files@, f);
    }
}

/// Putting files in order keeps them.
proof fn lemma_same_members(
    ladder: Seq<(String, String)>,
    files: Seq<(String, String)>,
    f: (String, String),
)
    requires
        crate::runtime::migrate::is_ladder(ladder, files),
    ensures
        ladder.contains(f) == files.contains(f),
{
    let alike = crate::order::like(crate::runtime::migrate::by_name(), f);
    crate::text::lemma_le_total(f.0@, f.0@);
    assert(alike(f));
    assert(ladder.filter(alike) == files.filter(alike));
    lemma_filtered(ladder, alike, f);
    lemma_filtered(files, alike, f);
}

/// What a filter keeps of what fits.
pub proof fn lemma_filtered<A>(s: Seq<A>, fits: spec_fn(A) -> bool, x: A)
    requires
        fits(x),
    ensures
        s.filter(fits).contains(x) == s.contains(x),
    decreases s.len(),
{
    reveal(Seq::filter);
    if s.len() > 0 {
        let front = s.drop_last();
        lemma_filtered(front, fits, x);
        assert(s =~= front.push(s.last()));
        lemma_push(front, s.last(), x);
        lemma_push(front.filter(fits), s.last(), x);
    }
}

/// What a list holds with one more at its end.
proof fn lemma_push<A>(s: Seq<A>, y: A, x: A)
    ensures
        s.push(y).contains(x) == (s.contains(x) || x == y),
{
    if s.contains(x) {
        let i = s.index_of(x);
        assert(s.push(y)[i] == x);
    }
    if x == y {
        assert(s.push(y)[s.len() as int] == x);
    }
    if s.push(y).contains(x) && x != y {
        let i = s.push(y).index_of(x);
        assert(s[i] == x);
    }
}

/// An app's migrations are stored where none of them is blank, and refused where
/// one is.
pub proof fn a_blank_migration_is_refused(
    app: &str,
    files: Vec<(String, String)>,
    r: Result<Vec<(String, String)>, String>,
)
    requires
        is_slug(app@),
        call_ensures(store, (app, files), r),
    ensures
        r is Ok == forall|i: int|
            0 <= i < files.len() ==> trimmed((#[trigger] files@[i]).1@).len() > 0,
        r matches Ok(ladder) ==> ladder.len() == files.len(),
{
    if let Ok(ladder) = r {
        assert forall|i: int| 0 <= i < files.len() implies trimmed(
            (#[trigger] files@[i]).1@,
        ).len() > 0 by {
            lemma_same_members(ladder@, files@, files@[i]);
            let k = ladder@.index_of(files@[i]);
            assert(!crate::runtime::migrate::is_empty(ladder@[k]));
        }
    } else {
        let (ladder, i) = choose|ladder: Seq<(String, String)>, i: int| #[trigger]
            crate::runtime::migrate::is_ladder(ladder, files@) && 0 <= i < ladder.len()
                && crate::runtime::migrate::is_empty(#[trigger] ladder[i]);
        lemma_same_members(ladder, files@, ladder[i]);
        let k = files@.index_of(ladder[i]);
        assert(trimmed(files@[k].1@).len() == 0);
    }
}

/// How many migrations ran is how far the version moved.
pub proof fn migrations_are_counted(before: usize, ran: usize, r: (usize, usize))
    requires
        before + ran <= usize::MAX,
        call_ensures(applied, (before, (before + ran) as usize), r),
    ensures
        r.0 == before + ran,
        r.1 == ran,
{
}

/// A full cache forgets the module that was used longest ago, and no other; one
/// that is not full forgets nothing.
pub proof fn the_coldest_module_leaves(
    cache: &mut ModuleCache,
    key: &str,
    now: u64,
    r: Option<String>,
    k: Seq<char>,
)
    requires
        call_ensures(ModuleCache::keep, (cache, key, now), r),
        old(cache)@.contains_key(k),
    ensures
        old(cache)@.dom().len() < 32 ==> r is None,
        r matches Some(gone) ==> old(cache)@[gone@] <= old(cache)@[k],
        final(cache)@.contains_key(key@) && final(cache)@[key@] == now,
        (r matches Some(gone) ==> gone@ != k) && k != key@ ==> final(cache)@.contains_key(k)
            && final(cache)@[k] == old(cache)@[k],
{
}

/// Values are bound one for one, each as it would be by itself; one that cannot be
/// refuses them all.
pub proof fn values_are_bound_one_for_one(
    values: Vec<Given>,
    i: int,
    one: Result<Bound, String>,
    r: Result<Vec<Bound>, String>,
)
    requires
        call_ensures(bind, (&values,), r),
        0 <= i < values.len(),
        call_ensures(to_sql, (&values@[i],), one),
    ensures
        one is Err ==> r is Err,
        r matches Ok(bound) ==> bound.len() == values.len(),
        r is Ok && values@[i] is Null ==> r->Ok_0@[i] is Null,
        r is Ok && values@[i] is Bool ==> r->Ok_0@[i] == Bound::Integer(
            if values@[i]->Bool_0 {
                1
            } else {
                0
            },
        ),
        r is Ok && (values@[i] matches Given::Text(t)) ==> (r->Ok_0@[i] matches Bound::Text(t) && t@
            == values@[i]->Text_0@),
        (forall|k: int| 0 <= k < values.len() ==> #[trigger] values@[k] is Null) ==> r is Ok,
{
    if let Ok(bound) = r {
        let b = bound@[i];
        assert(crate::runtime::db::is_bound(b, values@[i]));
    }
}

/// The database of an app is inside the app, and its migrations are beside it; what is
/// no slug has neither.
pub proof fn where_an_apps_data_is(
    config: Config,
    app: &str,
    db: Option<String>,
    steps: Option<String>,
)
    requires
        call_ensures(db_path, (&config, app), db),
        call_ensures(path, (&config, app), steps),
    ensures
        db is Some == is_slug(app@),
        steps is Some == is_slug(app@),
        db matches Some(p) ==> p@ == inside(inside(config.data_dir@, app@), "data.db"@),
        steps matches Some(p) ==> p@ == inside(config.data_dir@, app@ + ".migrations"@),
{
}

/// What is said of a script that failed is what the script said, where that comes from
/// the database.
pub proof fn what_a_script_said_is_said(
    named: bool,
    script: String,
    preparing: String,
    r: String,
)
    requires
        call_ensures(script_failed, (named, script, preparing), r),
    ensures
        named ==> r@ == script@,
        !named ==> r@ == preparing@,
{
}

/// An outcome begins empty, and is told with its columns, its rows, how many changed
/// and whether there was more.
pub proof fn how_an_outcome_is_told(
    o: SqlOutcome,
    columns: Vec<String>,
    fresh: SqlOutcome,
    count: String,
    r: String,
)
    requires
        call_ensures(SqlOutcome::new, (columns,), fresh),
        call_ensures(decimal, (o.rows_affected,), count),
        call_ensures(to_json, (&o,), r),
    ensures
        fresh.columns == columns && fresh.rows.len() == 0 && !fresh.truncated && fresh.rows_affected
            == 0,
        o.truncated ==> (",\"rows_affected\":"@ + count@ + ",\"truncated\":"@ + "true"@
            + "}"@).is_suffix_of(r@),
        !o.truncated ==> (",\"rows_affected\":"@ + count@ + ",\"truncated\":"@ + "false"@
            + "}"@).is_suffix_of(r@),
        o.columns.len() == 0 && o.rows.len() == 0 ==> ("{\"columns\":"@ + "["@ + "]"@
            + ",\"rows\":"@ + "["@ + "]"@).is_prefix_of(r@),
{
    let told = if o.truncated {
        "true"@
    } else {
        "false"@
    };
    let tail = ",\"rows_affected\":"@ + count@ + ",\"truncated\":"@ + told + "}"@;
    let whole = r@;
    assert(whole.subrange(whole.len() - tail.len(), whole.len() as int) =~= tail);
    if o.columns.len() == 0 && o.rows.len() == 0 {
        let cs = o.columns@.map_values(|c: String| crate::encode::json_string(c@));
        let rs = o.rows@.map_values(|x: Vec<Shown>| crate::runtime::db::row_json(x));
        assert(cs.len() == 0 && rs.len() == 0);
        assert(crate::text::joined(cs, ","@) =~= Seq::<char>::empty());
        assert(crate::text::joined(rs, ","@) =~= Seq::<char>::empty());
        let head = "{\"columns\":"@ + "["@ + "]"@ + ",\"rows\":"@ + "["@ + "]"@;
        assert(crate::runtime::db::list_json(cs) =~= "["@ + "]"@);
        assert(crate::runtime::db::list_json(rs) =~= "["@ + "]"@);
        assert(whole.subrange(0, head.len() as int) =~= head);
    }
}

/// A list is its items between brackets, with commas between them.
pub proof fn a_list_stands_between_brackets(items: Vec<String>, inner: String, r: String)
    requires
        call_ensures(join, (&items, ","), inner),
        call_ensures(list_text, (&items,), r),
    ensures
        r@ == "["@ + inner@ + "]"@,
{
}

/// A handler that is refused is told of which host, and what to do about it.
pub proof fn a_refusal_names_its_host(refusal: Refusal, host: Seq<char>, r: String)
    requires
        call_ensures(Refusal::message, (&refusal,), r),
        refusal matches Refusal::NotAllowed(h) ==> h@ == host,
        refusal matches Refusal::Internal(h) ==> h@ == host,
    ensures
        !(refusal is BadUrl) ==> host.is_prefix_of(r@),
        refusal matches Refusal::BadUrl(why) ==> r@ == why@,
{
    if !(refusal is BadUrl) {
        assert(r@.subrange(0, host.len() as int) =~= host);
    }
}

/// A module may run for as many ticks as its time takes, and for one at least.
pub proof fn ticks_cover_the_time(guards: Guards, r: u64)
    requires
        call_ensures(Guards::ticks, (&guards,), r),
    ensures
        r >= 1,
        r * 50 >= guards.wall_clock,
        r > 1 ==> (r - 1) * 50 < guards.wall_clock,
{
}

/// Using a module that is kept makes it the latest used, and keeps the others.
pub proof fn using_a_module_keeps_it_warm(
    cache: &mut ModuleCache,
    key: &str,
    now: u64,
    k: Seq<char>,
    r: bool,
)
    requires
        call_ensures(ModuleCache::touch, (cache, key, now), r),
    ensures
        r == old(cache)@.contains_key(key@),
        r ==> final(cache)@[key@] == now,
        k != key@ ==> final(cache)@.contains_key(k) == old(cache)@.contains_key(k) && final(
            cache)@[k] == old(cache)@[k],
        !r ==> final(cache)@ == old(cache)@,
{
}

/// How a value of a row is written in JSON.
pub open spec fn is_written(cell: Shown, text: Seq<char>) -> bool {
    match cell {
        Shown::Null => text == "null"@,
        Shown::Integer(i) => if i < 0 {
            text == "-"@ + digits((-i) as nat)
        } else {
            text == digits(i as nat)
        },
        Shown::Real(t) => text == t@,
        Shown::Text(t) => text == json_string(t@),
    }
}

/// An outcome is written with its columns, then with its rows one by one, each value of a
/// row as what it is: nothing as `null`, a number as it is, a text in quotes.
pub proof fn every_value_is_written(
    o: SqlOutcome,
    columns: Seq<Seq<char>>,
    cells: Seq<Seq<Seq<char>>>,
    rows: Seq<Seq<char>>,
    r: String,
)
    requires
        call_ensures(to_json, (&o,), r),
        columns.len() == o.columns.len(),
        forall|i: int|
            #![trigger columns[i]]
            0 <= i < columns.len() ==> columns[i] == json_string(o.columns@[i]@),
        cells.len() == o.rows.len(),
        rows.len() == o.rows.len(),
        forall|i: int|
            #![trigger cells[i]]
            0 <= i < cells.len() ==> cells[i].len() == o.rows@[i].len(),
        forall|i: int, j: int|
            #![trigger cells[i][j]]
            0 <= i < cells.len() && 0 <= j < cells[i].len() ==> is_written(
                o.rows@[i]@[j],
                cells[i][j],
            ),
        forall|i: int|
            #![trigger rows[i]]
            0 <= i < rows.len() ==> rows[i] == "["@ + joined(cells[i], ","@) + "]"@,
    ensures
        ("{\"columns\":"@ + ("["@ + joined(columns, ","@) + "]"@) + ",\"rows\":"@ + ("["@ + joined(
            rows,
            ","@,
        ) + "]"@)).is_prefix_of(r@),
{
    let cs = o.columns@.map_values(|c: String| json_string(c@));
    assert(cs =~= columns);
    let rs = o.rows@.map_values(|x: Vec<Shown>| crate::runtime::db::row_json(x));
    assert forall|i: int| 0 <= i < rs.len() implies rs[i] == #[trigger] rows[i] by {
        let row = o.rows@[i];
        let own = row@.map_values(|c: Shown| crate::runtime::db::cell_json(c));
        let given = cells[i];
        assert(given.len() == own.len());
        assert forall|j: int| 0 <= j < own.len() implies own[j] == given[j] by {
            assert(is_written(row@[j], cells[i][j]));
        }
        assert(own =~= given);
    }
    assert(rs =~= rows);
    let head = "{\"columns\":"@ + ("["@ + joined(columns, ","@) + "]"@) + ",\"rows\":"@ + ("["@
        + joined(rows, ","@) + "]"@);
    let whole = r@;
    assert(whole.subrange(0, head.len() as int) =~= head);
}

} // verus!
