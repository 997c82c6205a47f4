//! What holds of an app's settings: each law is about what a function is handed and
//! what it gives back.
use crate::config::Config;
use crate::content::slug::is_slug;
use crate::content::store::inside;
use crate::crypto::base64_decoded;
use crate::platform::secrets::{
    create_entry_with, entry_app, entry_form, entry_submit, get, key, last_of_name, names, open,
    parse_pasted, save_pasted, seal_with, setting_line, setting_lines, settings_path, valid_setting,
    value_of, PastedSettings,
};
use crate::platform::upload::UploadTicket;
use crate::reply::Reply;
use crate::table::Table;
use crate::text::{
    find, lemma_find, lines_of, pairs, stripped, stripped_end, stripped_start, texts, trimmed,
};
use crate::text_laws::{is_tight, lemma_trimmed};
use vstd::prelude::*;

verus! {

/// The key is 32 bytes long. The one that the environment gives counts, whatever is
/// stored; without one the stored key counts, and a fresh one is asked for only where
/// neither is there.
pub proof fn the_environment_gives_the_key(
    configured: Option<&str>,
    stored: Option<&[u8]>,
    other: Option<&[u8]>,
    r: Result<Option<Vec<u8>>, String>,
    s: Result<Option<Vec<u8>>, String>,
)
    requires
        call_ensures(key, (configured, stored), r),
        call_ensures(key, (configured, other), s),
    ensures
        r matches Ok(Some(k)) ==> k.len() == 32,
        configured is Some ==> (r is Ok) == (s is Ok) && !(r matches Ok(None)),
        configured is Some && r is Ok ==> (r->Ok_0)->0@ == (s->Ok_0)->0@,
        configured matches Some(text) ==> (r is Ok) == (base64_decoded(trimmed(text@)) matches Some(
            k,
        ) && k.len() == 32),
        configured is None ==> r is Ok,
        configured is None && (stored matches Some(k) && k@.len() == 32) ==> (r matches Ok(Some(k))
            && k@ == stored->0@),
        configured is None && !(stored matches Some(k) && k@.len() == 32) ==> r matches Ok(None),
{
}

/// What is sealed opens again to what it was, under the same key.
pub proof fn what_is_sealed_opens_again(
    k: Vec<u8>,
    nonce: Vec<u8>,
    value: &str,
    sealed: Result<String, String>,
    stored: &str,
    r: Option<String>,
)
    requires
        call_ensures(seal_with, (&k, &nonce, value), sealed),
        sealed matches Ok(s) && s@ == stored@,
        call_ensures(open, (&k, stored), r),
    ensures
        r matches Some(v) && v@ == value@,
{
}

/// A setting reads back as it was set, and no other setting changes.
pub proof fn a_setting_reads_back(
    settings: &mut Table<String>,
    before: Table<String>,
    after: Table<String>,
    app: &str,
    k: Vec<u8>,
    name: &str,
    other: &str,
    value: Option<&str>,
    done: Result<(), String>,
    r: Option<String>,
    x: Option<String>,
    y: Option<String>,
)
    requires
        call_ensures(crate::platform::secrets::set, (settings, app, &k, name, value), done),
        before@ == old(settings)@,
        after@ == final(settings)@,
        call_ensures(get, (&after, &k, name), r),
        call_ensures(get, (&before, &k, other), x),
        call_ensures(get, (&after, &k, other), y),
        other@ != name@,
    ensures
        done is Ok && value is Some ==> (r matches Some(v) && v@ == value->0@),
        done is Ok && value is None ==> r is None && old(settings)@.contains_key(name@),
        x is Some == y is Some,
        x is Some ==> x->0@ == y->0@,
        done is Err ==> final(settings)@ == old(settings)@,
        value is None && !old(settings)@.contains_key(name@) ==> done is Err,
        value is None && old(settings)@.contains_key(name@) && is_slug(app@) && is_name(name@)
            ==> done is Ok,
        !is_slug(app@) || !is_name(name@) ==> done is Err,
{
    let o = other@;
    assert(old(settings)@.remove(name@).contains_key(o) == final(settings)@.remove(
        name@,
    ).contains_key(o));
    assert(old(settings)@.remove(name@)[o] == final(settings)@.remove(name@)[o]);
    assert(is_name(name@) == crate::platform::secrets::is_setting(name@));
}

/// Whether a text is made of letters, digits and underscores, and of at least one.
pub open spec fn is_name(s: Seq<char>) -> bool {
    s.len() > 0 && forall|i: int|
        0 <= i < s.len() ==> {
            ||| 'a' <= #[trigger] s[i] && s[i] <= 'z'
            ||| 'A' <= s[i] && s[i] <= 'Z'
            ||| '0' <= s[i] && s[i] <= '9'
            ||| s[i] == '_'
        }
}

/// The name of a setting is made of letters, digits and underscores.
pub proof fn settings_by_their_characters(name: &str, r: bool)
    requires
        call_ensures(valid_setting, (name,), r),
    ensures
        r == is_name(name@),
{
    assert(is_name(name@) == crate::platform::secrets::is_setting(name@));
}

/// The names of the settings are those that are set, each once.
pub proof fn every_setting_is_named(settings: Table<String>, k: Seq<char>, r: Vec<String>)
    requires
        call_ensures(names, (&settings,), r),
    ensures
        settings@.contains_key(k) == exists|i: int| 0 <= i < r.len() && (#[trigger] r@[i])@ == k,
        forall|i: int, j: int| 0 <= i < j < r.len() ==> (#[trigger] r@[i])@ != (#[trigger] r@[j])@,
{
    if settings@.contains_key(k) {
        assert(texts(r@).contains(k));
        let i = texts(r@).index_of(k);
        assert(r@[i]@ == k);
    }
    if exists|i: int| 0 <= i < r.len() && (#[trigger] r@[i])@ == k {
        let i = choose|i: int| 0 <= i < r.len() && (#[trigger] r@[i])@ == k;
        assert(texts(r@)[i] == k);
        assert(texts(r@).contains(k));
    }
    assert forall|i: int, j: int| 0 <= i < j < r.len() implies (#[trigger] r@[i])@ != (
    #[trigger] r@[j])@ by {
        assert(texts(r@)[i] == r@[i]@ && texts(r@)[j] == r@[j]@);
    }
}

/// The settings of an app are kept beside it, and nothing that is no slug has any.
pub proof fn settings_are_kept_beside_their_app(config: Config, app: &str, r: Option<String>)
    requires
        call_ensures(settings_path, (&config, app), r),
    ensures
        r is Some == is_slug(app@),
        r matches Some(p) ==> p@ == inside(config.data_dir@, app@ + ".secrets"@),
{
}

/// A link to enter settings is for its app, from when it is made until an hour
/// later; and it names its token.
pub proof fn a_settings_link_lasts_an_hour(
    config: &mut Config,
    uploads: &mut Table<UploadTicket>,
    app: &str,
    token: String,
    given: &str,
    now: u64,
    later: u64,
    made: Result<String, String>,
    r: Option<String>,
)
    requires
        now <= u64::MAX - 3_600_000,
        call_ensures(create_entry_with, (config, app, token, now), made),
        old(uploads)@ == final(config).uploads@,
        given@ == token@,
        call_ensures(entry_app, (uploads, later, given), r),
    ensures
        made is Ok == is_slug(app@),
        made matches Ok(url) ==> ("/settings/"@ + token@).is_suffix_of(url@),
        made is Ok && later < now + 3_600_000 ==> (r matches Some(a) && a@ == app@),
        made is Ok && later >= now + 3_600_000 ==> r is None,
{
    if let Ok(url) = made {
        let tail = "/settings/"@ + token@;
        assert(url@.subrange(url@.len() - tail.len(), url@.len() as int) =~= tail);
    }
}

/// A line `NAME=value` stands for its name and its value; so it does behind
/// `export`, and with its value in quotes.
pub proof fn a_line_names_a_setting(
    name: Seq<char>,
    value: Seq<char>,
    s: &str,
    r: Vec<(String, String)>,
)
    requires
        is_name(name),
        is_tight(value),
        value[0] != '"' && value[0] != '\'' && value.last() != '"' && value.last() != '\'',
        !value.contains('\n'),
        s@ == name + "="@ + value || s@ == "export "@ + name + "="@ + value || s@ == name + "=\""@
            + value + "\""@ || s@ == name + "='"@ + value + "'"@,
        call_ensures(parse_pasted, (s,), r),
    ensures
        r.len() == 1,
        r@[0].0@ == name,
        r@[0].1@ == value,
{
    reveal_strlit("=");
    reveal_strlit("=\"");
    reveal_strlit("='");
    reveal_strlit("\"");
    reveal_strlit("'");
    reveal_strlit("export ");
    reveal_strlit("#");
    let line = s@;
    assert(line.len() > 0);
    assert('!' <= line[0] && line[0] <= '~') by {
        if s@ == "export "@ + name + "="@ + value {
            assert(line[0] == 'e');
        } else {
            assert(line[0] == name[0]);
        }
    }
    assert('!' <= line.last() && line.last() <= '~');
    assert(trimmed(line) == line);
    assert(!line.contains('\n')) by {
        if line.contains('\n') {
            let k = line.index_of('\n');
            assert(line[k] == '\n');
            assert(forall|i: int| 0 <= i < value.len() ==> value[i] != '\n');
        }
    }
    lemma_one_line(line);
    assert(line[0] != '#');
    assert(!"#"@.is_prefix_of(line)) by {
        if "#"@.is_prefix_of(line) {
            assert(line.subrange(0, 1)[0] == '#');
        }
    }
    let exported = s@ == "export "@ + name + "="@ + value;
    let rest = if exported {
        line.skip(7)
    } else {
        line
    };
    if exported {
        assert(line.subrange(0, 7) =~= "export "@);
        assert("export "@.is_prefix_of(line));
        assert(rest =~= name + "="@ + value);
    } else {
        assert(!"export "@.is_prefix_of(line)) by {
            if "export "@.is_prefix_of(line) {
                assert(line.subrange(0, 7)[6] == ' ');
                assert(line[6] == ' ');
                let k = name.len() as int;
                assert(line[k] == '=');
                assert(line.subrange(0, 7) =~= "export "@);
                if 6 < k {
                    assert(line[6] == name[6]);
                } else {
                    assert(k != 6);
                    assert(line.subrange(0, 7)[k] == "export "@[k]);
                }
            }
        }
    }
    let n = name.len() as int;
    assert(rest[n] == '=');
    assert(rest.contains('='));
    lemma_find(rest, '=');
    let k = find(rest, '=');
    if k < n {
        assert(rest[k] == name[k]);
    } else if n < k {
        assert(rest.take(k)[n] == '=');
    }
    assert(rest.take(n) =~= name);
    assert(trimmed(name) == name);
    let raw = rest.skip(n + 1);
    lemma_bare(value);
    if s@ == name + "=\""@ + value + "\""@ {
        assert(raw =~= "\""@ + value + "\""@);
        lemma_quoted('"', value);
        assert("\""@ =~= seq!['"']);
        assert(raw =~= seq!['"'] + value + seq!['"']);
    } else if s@ == name + "='"@ + value + "'"@ {
        assert(raw =~= "'"@ + value + "'"@);
        lemma_quoted('\'', value);
        assert("'"@ =~= seq!['\'']);
        assert("\""@ =~= seq!['"']);
        assert(raw =~= seq!['\''] + value + seq!['\'']);
        assert(!"\""@.contains(raw[0]));
        assert(!"\""@.contains(raw.last()));
        assert(stripped(raw, "\""@) == raw);
    } else {
        assert(raw =~= value);
    }
    assert(trimmed(raw) == raw);
    assert(setting_line(line) == Some((name, value)));
    reveal_with_fuel(setting_lines, 2);
    assert(lines_of(line).drop_last() =~= Seq::empty());
    assert(pairs(r@) =~= seq![(name, value)]);
    assert(pairs(r@).len() == r.len());
    assert(pairs(r@)[0] == (r@[0].0@, r@[0].1@));
}

/// A line that is not empty and has no end in it is the only line.
proof fn lemma_one_line(s: Seq<char>)
    requires
        s.len() > 0,
        !s.contains('\n'),
    ensures
        lines_of(s) == seq![s],
{
    crate::text::lemma_split_whole(s, '\n');
    let pieces = crate::text::split(s, '\n');
    assert(pieces.drop_last() =~= Seq::empty());
    assert(lines_of(s) =~= seq![s]);
}

/// Nothing is stripped of a value without quotes at its ends.
proof fn lemma_bare(value: Seq<char>)
    requires
        value.len() > 0,
        value[0] != '"' && value[0] != '\'' && value.last() != '"' && value.last() != '\'',
    ensures
        stripped(value, "\""@) == value,
        stripped(value, "'"@) == value,
{
    reveal_strlit("\"");
    reveal_strlit("'");
    assert("\""@ =~= seq!['"']);
    assert("'"@ =~= seq!['\'']);
}

/// Quotes around a value are stripped.
proof fn lemma_quoted(q: char, value: Seq<char>)
    requires
        value.len() > 0,
        value[0] != q,
        value.last() != q,
    ensures
        stripped(seq![q] + value + seq![q], seq![q]) == value,
{
    let whole = seq![q] + value + seq![q];
    reveal_with_fuel(stripped_start, 2);
    reveal_with_fuel(stripped_end, 2);
    assert(seq![q][0] == q);
    assert(seq![q].contains(whole[0]));
    assert(whole.skip(1) =~= value + seq![q]);
    assert(!seq![q].contains((value + seq![q])[0]));
    assert(seq![q].contains((value + seq![q]).last()));
    assert((value + seq![q]).drop_last() =~= value);
    assert(!seq![q].contains(value.last()));
}

/// Blank lines, comments and lines without `=` stand for nothing.
pub proof fn other_lines_name_nothing(s: &str, r: Vec<(String, String)>)
    requires
        !s@.contains('\n'),
        call_ensures(parse_pasted, (s,), r),
    ensures
        trimmed(s@).len() == 0 ==> r.len() == 0,
        "#"@.is_prefix_of(trimmed(s@)) ==> r.len() == 0,
        !s@.contains('=') ==> r.len() == 0,
        is_tight(s@) && s@.last() == '=' && !s@.drop_last().contains('=') ==> r.len() == 0,
        is_tight(s@) && s@[0] == '=' ==> r.len() == 0,
{
    let line = trimmed(s@);
    if is_tight(s@) && s@.last() == '=' && !s@.drop_last().contains('=') {
        lemma_without_value(s@);
    }
    if is_tight(s@) && s@[0] == '=' {
        lemma_without_name(s@);
    }
    assert(pairs(r@).len() == r.len());
    if s@.len() > 0 {
        lemma_one_line(s@);
        reveal_with_fuel(setting_lines, 2);
        assert(lines_of(s@).drop_last() =~= Seq::empty());
        if !s@.contains('=') {
            lemma_trimmed_part(s@, '=');
            let rest = line.skip("export "@.len() as int);
            if "export "@.is_prefix_of(line) && rest.contains('=') {
                let k = rest.index_of('=');
                assert(line["export "@.len() + k] == '=');
            }
        }
    } else {
        crate::text::lemma_split_whole(s@, '\n');
        assert(lines_of(s@) =~= Seq::empty());
    }
}

/// A name without a value is no setting.
proof fn lemma_without_value(s: Seq<char>)
    requires
        is_tight(s),
        s.last() == '=',
        !s.drop_last().contains('='),
    ensures
        setting_line(s) is None,
{
    lemma_trimmed(Seq::empty(), s, Seq::empty());
    let n = "export "@.len() as int;
    let rest = if "export "@.is_prefix_of(s) {
        s.skip(n)
    } else {
        s
    };
    reveal_strlit("export ");
    if "export "@.is_prefix_of(s) {
        assert(s.subrange(0, n)[n - 1] == ' ');
        assert(s[n - 1] == ' ');
        assert(n < s.len());
    }
    assert(rest.last() == '=');
    assert(rest.contains('='));
    lemma_find(rest, '=');
    let k = find(rest, '=');
    if k < rest.len() - 1 {
        let i = if "export "@.is_prefix_of(s) {
            k + n
        } else {
            k
        };
        assert(s.drop_last()[i] == '=');
    }
    assert(rest.skip(k + 1) =~= Seq::empty());
    assert(trimmed(Seq::<char>::empty()) =~= Seq::empty());
    assert(stripped(Seq::<char>::empty(), "\""@) =~= Seq::empty());
    assert(stripped(Seq::<char>::empty(), "'"@) =~= Seq::empty());
}

/// A value without a name is no setting.
proof fn lemma_without_name(s: Seq<char>)
    requires
        is_tight(s),
        s[0] == '=',
    ensures
        setting_line(s) is None,
{
    lemma_trimmed(Seq::empty(), s, Seq::empty());
    reveal_strlit("export ");
    if "export "@.is_prefix_of(s) {
        assert(s.subrange(0, 7)[0] == 'e');
    }
    assert(s.contains('='));
    lemma_find(s, '=');
    let k = find(s, '=');
    if 0 < k {
        assert(s.take(k)[0] == '=');
    }
    assert(s.take(0) =~= Seq::empty());
    assert(trimmed(Seq::<char>::empty()) =~= Seq::empty());
}

/// What is trimmed has no character that was not there.
proof fn lemma_trimmed_part(s: Seq<char>, c: char)
    requires
        !s.contains(c),
    ensures
        !trimmed(s).contains(c),
{
    lemma_start_part(s, c);
    lemma_end_part(crate::text::trimmed_start(s), c);
}

proof fn lemma_start_part(s: Seq<char>, c: char)
    requires
        !s.contains(c),
    ensures
        !crate::text::trimmed_start(s).contains(c),
    decreases s.len(),
{
    if s.len() > 0 {
        assert(!s.skip(1).contains(c)) by {
            if s.skip(1).contains(c) {
                let k = s.skip(1).index_of(c);
                assert(s[k + 1] == c);
            }
        }
        lemma_start_part(s.skip(1), c);
    }
}

proof fn lemma_end_part(s: Seq<char>, c: char)
    requires
        !s.contains(c),
    ensures
        !crate::text::trimmed_end(s).contains(c),
    decreases s.len(),
{
    if s.len() > 0 {
        assert(!s.drop_last().contains(c)) by {
            if s.drop_last().contains(c) {
                let k = s.drop_last().index_of(c);
                assert(s[k] == c);
            }
        }
        lemma_end_part(s.drop_last(), c);
    }
}

/// A text of lines stands for the settings of its first line, then for those of the
/// others.
pub proof fn every_line_is_read(
    first: &str,
    rest: &str,
    s: &str,
    a: Vec<(String, String)>,
    b: Vec<(String, String)>,
    r: Vec<(String, String)>,
)
    requires
        first@.len() > 0,
        !first@.contains('\n'),
        first@.last() != '\r',
        s@ == first@ + seq!['\n'] + rest@,
        call_ensures(parse_pasted, (first,), a),
        call_ensures(parse_pasted, (rest,), b),
        call_ensures(parse_pasted, (s,), r),
    ensures
        pairs(r@) == pairs(a@) + pairs(b@),
{
    let l = first@;
    lemma_one_line(l);
    crate::text::lemma_split_head(l, '\n', rest@);
    crate::text::lemma_split_len(rest@, '\n');
    let pieces = crate::text::split(rest@, '\n');
    let all = seq![l] + pieces;
    assert(all.last() == pieces.last());
    assert(all.drop_last() =~= seq![l] + pieces.drop_last());
    assert(crate::text::without_return(l) =~= l);
    assert(lines_of(s@) =~= seq![l] + lines_of(rest@));
    lemma_lines_both(seq![l], lines_of(rest@));
}

proof fn lemma_lines_both(a: Seq<Seq<char>>, b: Seq<Seq<char>>)
    ensures
        setting_lines(a + b) == setting_lines(a) + setting_lines(b),
    decreases b.len(),
{
    if b.len() == 0 {
        assert(a + b =~= a);
        assert(setting_lines(a) + setting_lines(b) =~= setting_lines(a));
    } else {
        assert((a + b).drop_last() =~= a + b.drop_last());
        lemma_lines_both(a, b.drop_last());
        assert(setting_lines(a + b) =~= setting_lines(a) + setting_lines(b));
    }
}

/// Of settings that are saved together, all are where the count is given, the last
/// of a name counts, and a name that is refused stops the rest.
pub proof fn the_last_of_a_name_counts(
    settings: &mut Table<String>,
    after: Table<String>,
    app: &str,
    k: Vec<u8>,
    given: Vec<(String, String)>,
    i: int,
    name: &str,
    r: Result<usize, String>,
    read: Option<String>,
)
    requires
        call_ensures(save_pasted, (settings, app, &k, &given), r),
        after@ == final(settings)@,
        0 <= i < given.len(),
        given@[i].0@ == name@,
        call_ensures(get, (&after, &k, name), read),
    ensures
        r matches Ok(n) ==> n == given.len(),
        r is Ok && (forall|j: int| i < j < given.len() ==> (#[trigger] given@[j]).0@ != name@) ==> (
        read matches Some(v) && v@ == given@[i].1@),
        !is_slug(app@) || !is_name(name@) ==> r is Err,
{
    let ps = pairs(given@);
    assert(ps.len() == given.len());
    assert forall|j: int| 0 <= j < given.len() implies #[trigger] ps[j] == (
        given@[j].0@,
        given@[j].1@,
    ) by {}
    assert(ps[i].0 == name@);
    assert(is_name(name@) == crate::platform::secrets::is_setting(name@));
    if r is Ok && (forall|j: int| i < j < given.len() ==> (#[trigger] given@[j]).0@ != name@) {
        assert forall|j: int| i < j < ps.len() implies (#[trigger] ps[j]).0 != ps[i].0 by {
            assert(given@[j].0@ != name@);
        }
        assert(last_of_name(ps, i, ps.len() as int));
        assert(value_of(final(settings)@, k@, ps[i].0) == Some(ps[i].1));
    }
}

/// A link that has expired is told so and changes nothing. Entering settings leads
/// back to the form, or is refused; where nothing is entered nothing changes.
pub proof fn what_entering_settings_answers(
    settings: &mut Table<String>,
    k: Vec<u8>,
    app: Option<&str>,
    form: PastedSettings,
    text: &str,
    given: Vec<(String, String)>,
    existing: Vec<String>,
    token: &str,
    r: Reply,
    page: Reply,
)
    requires
        call_ensures(entry_submit, (settings, &k, app, &form), r),
        text@ == form.pasted@,
        call_ensures(parse_pasted, (text,), given),
        call_ensures(entry_form, (app, &existing, token), page),
    ensures
        app is None ==> r.status == 410 && page.status == 410 && final(settings)@ == old(settings)@,
        app is Some ==> page.status == 200 && (r.status == 303 || r.status == 400),
        app is Some && given.len() == 0 ==> r.status == 400,
        r.status == 303 ==> given.len() > 0 && is_slug(app->0@) && forall|i: int|
            0 <= i < given.len() ==> is_name((#[trigger] given@[i]).0@),
        r.status == 303 ==> pairs(r.headers@) == seq![("location"@, "/settings/"@ + form.token@)],
        app is Some && is_slug(app->0@) && given.len() > 0 && (forall|i: int|
            0 <= i < given.len() ==> is_name((#[trigger] given@[i]).0@)) ==> r.status == 303
            || r.body@ == "could not encrypt"@,
{
    let ps = pairs(given@);
    assert(ps.len() == given.len());
    if app is Some && is_slug(app->0@) && given.len() > 0 && (forall|i: int|
        0 <= i < given.len() ==> is_name((#[trigger] given@[i]).0@)) {
        assert forall|i: int| 0 <= i < ps.len() implies crate::platform::secrets::is_setting(
            (#[trigger] ps[i]).0,
        ) by {
            assert(ps[i].0 == given@[i].0@);
            assert(is_name(given@[i].0@));
        }
    }
    if r.status == 303 {
        assert forall|i: int| 0 <= i < given.len() implies is_name((#[trigger] given@[i]).0@) by {
            assert(ps[i].0 == given@[i].0@);
            assert(crate::platform::secrets::is_setting(ps[i].0));
        }
        assert(ps[0].0 == given@[0].0@);
    }
}

} // verus!
