//! What holds of names, types, markup and what leads to a page: each law is about what
//! a function is handed and what it gives back.
use crate::accounts::users::{Accounts, User};
use crate::accounts::web::{
    current_app_user, current_site_user, header_value, is_visitor_navigation,
};
use crate::cli::project::{has_ending, is_migration};
use crate::config::Config;
use crate::content::archive::{
    archives_without_sparse_files_are_read, gunzipped, is_block, past_counting,
};
use crate::content::bundle::{list_upload, read_sql_files, read_upload, sql_in, EntryHeader};
use crate::content::serve::{
    arrive, card_markup, content_type_for, enclosing, gate_check, handler_wasm, icon_markup,
    icon_slug, id_of, is_hidden, on_index, places, prefixes, resolve, serve_icon, serve_page,
    showing, sniff_image_type, Candidate, Found, PageCard, PageRoute, Places, Serve, Served,
};
use crate::content::slug::{alnum, escape_html, escaped, is_slug, spell, valid_segment};
use crate::content::store::{inside, join_path, relative_time, Icon, PageMeta};
use crate::reply::Reply;
use crate::text::{
    joined, lemma_split_both, lemma_split_head, lemma_split_whole, lossy, lowered, pairs, split,
    stripped_end, trim_start,
};
use crate::ui::{form_page, page};
use vstd::prelude::*;
use vstd::utf8::{decode_utf8, valid_utf8};

verus! {

/// A file is served as what its last ending says, in whatever case; as bytes where
/// that says nothing.
pub proof fn a_file_is_served_by_its_ending(
    stem: Seq<char>,
    ext: Seq<char>,
    path: &str,
    r: &'static str,
)
    requires
        path@ == stem + "."@ + ext,
        !ext.contains('.'),
        call_ensures(content_type_for, (path,), r),
    ensures
        lowered(ext) == "html"@ || lowered(ext) == "htm"@ ==> r@ == "text/html; charset=utf-8"@,
        lowered(ext) == "css"@ ==> r@ == "text/css; charset=utf-8"@,
        lowered(ext) == "js"@ || lowered(ext) == "mjs"@ ==> r@ == "text/javascript; charset=utf-8"@,
        lowered(ext) == "json"@ || lowered(ext) == "map"@ ==> r@ == "application/json"@,
        lowered(ext) == "svg"@ ==> r@ == "image/svg+xml"@,
        lowered(ext) == "png"@ ==> r@ == "image/png"@,
        lowered(ext) == "jpg"@ || lowered(ext) == "jpeg"@ ==> r@ == "image/jpeg"@,
        lowered(ext) == "gif"@ ==> r@ == "image/gif"@,
        lowered(ext) == "webp"@ ==> r@ == "image/webp"@,
        lowered(ext) == "avif"@ ==> r@ == "image/avif"@,
        lowered(ext) == "ico"@ ==> r@ == "image/x-icon"@,
        lowered(ext) == "woff2"@ ==> r@ == "font/woff2"@,
        lowered(ext) == "woff"@ ==> r@ == "font/woff"@,
        lowered(ext) == "ttf"@ ==> r@ == "font/ttf"@,
        lowered(ext) == "otf"@ ==> r@ == "font/otf"@,
        lowered(ext) == "wasm"@ ==> r@ == "application/wasm"@,
        lowered(ext) == "txt"@ ==> r@ == "text/plain; charset=utf-8"@,
        lowered(ext) == "xml"@ ==> r@ == "application/xml"@,
        lowered(ext) == "webmanifest"@ ==> r@ == "application/manifest+json"@,
        ext.len() > 11 ==> r@ == "application/octet-stream"@,
{
    reveal_strlit(".");
    assert("."@ =~= seq!['.']);
    lemma_split_both(stem, '.', ext);
    lemma_split_whole(ext, '.');
    assert(path@ =~= stem + seq!['.'] + ext);
    assert(split(path@, '.').last() == ext);
    assert(lowered(ext).len() == ext.len());
    lemma_endings();
}

/// The endings that are known are told apart.
proof fn lemma_endings()
    ensures
        "html"@.len() == 4 && "html"@[0] == 'h' && "html"@[1] == 't',
        "htm"@.len() == 3 && "htm"@[0] == 'h' && "htm"@[1] == 't',
        "css"@.len() == 3 && "css"@[0] == 'c' && "css"@[1] == 's',
        "js"@.len() == 2 && "js"@[0] == 'j' && "js"@[1] == 's',
        "mjs"@.len() == 3 && "mjs"@[0] == 'm' && "mjs"@[1] == 'j',
        "json"@.len() == 4 && "json"@[0] == 'j' && "json"@[1] == 's',
        "map"@.len() == 3 && "map"@[0] == 'm' && "map"@[1] == 'a',
        "svg"@.len() == 3 && "svg"@[0] == 's' && "svg"@[1] == 'v',
        "png"@.len() == 3 && "png"@[0] == 'p' && "png"@[1] == 'n',
        "jpg"@.len() == 3 && "jpg"@[0] == 'j' && "jpg"@[1] == 'p',
        "jpeg"@.len() == 4 && "jpeg"@[0] == 'j' && "jpeg"@[1] == 'p',
        "gif"@.len() == 3 && "gif"@[0] == 'g' && "gif"@[1] == 'i',
        "webp"@.len() == 4 && "webp"@[0] == 'w' && "webp"@[1] == 'e',
        "avif"@.len() == 4 && "avif"@[0] == 'a' && "avif"@[1] == 'v',
        "ico"@.len() == 3 && "ico"@[0] == 'i' && "ico"@[1] == 'c',
        "woff2"@.len() == 5 && "woff2"@[0] == 'w' && "woff2"@[1] == 'o',
        "woff"@.len() == 4 && "woff"@[0] == 'w' && "woff"@[1] == 'o',
        "ttf"@.len() == 3 && "ttf"@[0] == 't' && "ttf"@[1] == 't',
        "otf"@.len() == 3 && "otf"@[0] == 'o' && "otf"@[1] == 't',
        "wasm"@.len() == 4 && "wasm"@[0] == 'w' && "wasm"@[1] == 'a',
        "txt"@.len() == 3 && "txt"@[0] == 't' && "txt"@[1] == 'x',
        "xml"@.len() == 3 && "xml"@[0] == 'x' && "xml"@[1] == 'm',
        "webmanifest"@.len() == 11 && "webmanifest"@[0] == 'w' && "webmanifest"@[1] == 'e',
{
    reveal_strlit("html");
    reveal_strlit("htm");
    reveal_strlit("css");
    reveal_strlit("js");
    reveal_strlit("mjs");
    reveal_strlit("json");
    reveal_strlit("map");
    reveal_strlit("svg");
    reveal_strlit("png");
    reveal_strlit("jpg");
    reveal_strlit("jpeg");
    reveal_strlit("gif");
    reveal_strlit("webp");
    reveal_strlit("avif");
    reveal_strlit("ico");
    reveal_strlit("woff2");
    reveal_strlit("woff");
    reveal_strlit("ttf");
    reveal_strlit("otf");
    reveal_strlit("wasm");
    reveal_strlit("txt");
    reveal_strlit("xml");
    reveal_strlit("webmanifest");
}

/// A text is escaped character by character: the four that mean something in markup
/// are spelled out, and every other stays.
pub proof fn text_is_escaped_character_by_character(
    front: &str,
    c: char,
    s: &str,
    before: String,
    r: String,
)
    requires
        s@ == front@.push(c),
        call_ensures(escape_html, (front,), before),
        call_ensures(escape_html, (s,), r),
    ensures
        front@.len() == 0 ==> before@.len() == 0,
        c == '&' ==> r@ == before@ + "&amp;"@,
        c == '<' ==> r@ == before@ + "&lt;"@,
        c == '>' ==> r@ == before@ + "&gt;"@,
        c == '"' ==> r@ == before@ + "&quot;"@,
        c != '&' && c != '<' && c != '>' && c != '"' ==> r@ == before@.push(c),
{
    assert(s@.drop_last() =~= front@);
}

/// A drawn name is spelled with small letters, then digits.
pub proof fn names_are_spelled_with_letters_and_digits(
    drawn: Vec<usize>,
    i: int,
    r: String,
)
    requires
        call_ensures(spell, (&drawn,), r),
        0 <= i < drawn.len(),
        drawn@[i] < 36,
    ensures
        r@.len() == drawn.len(),
        drawn@[i] < 26 ==> 'a' <= r@[i] && r@[i] <= 'z' && r@[i] as u32 == 'a' as u32 + drawn@[i],
        drawn@[i] >= 26 ==> '0' <= r@[i] && r@[i] <= '9' && r@[i] as u32 == '0' as u32 + drawn@[i]
            - 26,
{
}

/// A segment of a slug is made of letters, digits, hyphens and underscores.
pub proof fn segments_by_their_characters(s: &str, c: char, r: bool, ok: bool)
    requires
        call_ensures(valid_segment, (s,), r),
        call_ensures(alnum, (c,), ok),
    ensures
        ok == (('a' <= c && c <= 'z') || ('A' <= c && c <= 'Z') || ('0' <= c && c <= '9')),
        r == (s@.len() > 0 && forall|i: int|
            0 <= i < s@.len() ==> {
                ||| 'a' <= #[trigger] s@[i] && s@[i] <= 'z'
                ||| 'A' <= s@[i] && s@[i] <= 'Z'
                ||| '0' <= s@[i] && s@[i] <= '9'
                ||| s@[i] == '-'
                ||| s@[i] == '_'
            }),
{
}

/// A path inside a directory has one slash between them.
pub proof fn one_slash_stands_between(dir: &str, rel: &str, r: String)
    requires
        call_ensures(join_path, (dir, rel), r),
    ensures
        dir@.len() > 0 && dir@.last() != '/' ==> r@ == dir@ + "/"@ + rel@,
        dir@.len() > 0 && dir@.last() == '/' ==> r@ == dir@ + rel@,
        dir@.len() == 0 ==> r@ == rel@,
{
    if dir@.len() == 0 {
        assert(dir@ + rel@ =~= rel@);
    }
}

/// An image that is no drawing in XML is known by its first bytes; what is text is an
/// emoji.
pub proof fn an_image_is_known_by_its_first_bytes(bytes: &[u8], r: &'static str)
    requires
        call_ensures(sniff_image_type, (bytes,), r),
        r@ != "image/svg+xml"@,
        bytes@.len() > 12,
    ensures
        bytes@[0] == 0x89 && bytes@[1] == 0x50 && bytes@[2] == 0x4e && bytes@[3] == 0x47 ==> r@
            == "image/png"@,
        bytes@[0] == 0xff && bytes@[1] == 0xd8 && bytes@[2] == 0xff ==> r@ == "image/jpeg"@,
        bytes@[0] == 0x47 && bytes@[1] == 0x49 && bytes@[2] == 0x46 && bytes@[3] == 0x38 ==> r@
            == "image/gif"@,
        bytes@[0] == 0x52 && bytes@[1] == 0x49 && bytes@[2] == 0x46 && bytes@[3] == 0x46
            && bytes@[8] == 0x57 && bytes@[9] == 0x45 && bytes@[10] == 0x42 && bytes@[11] == 0x50
            ==> r@ == "image/webp"@,
        bytes@[0] == 0 && bytes@[1] == 0 && bytes@[2] == 1 && bytes@[3] == 0 ==> r@
            == "image/x-icon"@,
        bytes@[0] == 0x78 && valid_utf8(bytes@) ==> r@ == "text/plain; charset=utf-8"@,
        bytes@[0] == 0x78 && !valid_utf8(bytes@) ==> r@ == "application/octet-stream"@,
{
    let b = bytes@;
    let four = b.subrange(0, 4);
    let three = b.subrange(0, 3);
    let last = b.subrange(8, 12);
    assert(four[0] == b[0] && four[1] == b[1] && four[2] == b[2] && four[3] == b[3]);
    assert(three[0] == b[0] && three[1] == b[1] && three[2] == b[2]);
    assert(last[0] == b[8] && last[1] == b[9] && last[2] == b[10] && last[3] == b[11]);
    let png = seq![0x89u8, 0x50u8, 0x4eu8, 0x47u8];
    let jpeg = seq![0xffu8, 0xd8u8, 0xffu8];
    let gif = seq![0x47u8, 0x49u8, 0x46u8, 0x38u8];
    let riff = seq![0x52u8, 0x49u8, 0x46u8, 0x46u8];
    let webp = seq![0x57u8, 0x45u8, 0x42u8, 0x50u8];
    let ico = seq![0u8, 0u8, 1u8, 0u8];
    assert(png[0] == 0x89 && jpeg[0] == 0xff && gif[0] == 0x47 && riff[0] == 0x52 && ico[0] == 0);
    if b[0] == 0x89 && b[1] == 0x50 && b[2] == 0x4e && b[3] == 0x47 {
        assert(four =~= png);
    }
    if b[0] == 0xff && b[1] == 0xd8 && b[2] == 0xff {
        assert(three =~= jpeg);
    }
    if b[0] == 0x47 && b[1] == 0x49 && b[2] == 0x46 && b[3] == 0x38 {
        assert(four =~= gif);
    }
    if b[0] == 0x52 && b[1] == 0x49 && b[2] == 0x46 && b[3] == 0x46 && b[8] == 0x57 && b[9] == 0x45
        && b[10] == 0x42 && b[11] == 0x50 {
        assert(four =~= riff);
        assert(last =~= webp);
    }
    if b[0] == 0 && b[1] == 0 && b[2] == 1 && b[3] == 0 {
        assert(four =~= ico);
    }
}

/// An icon is sent as the type it is of, and one that is not there is a 404. Its path
/// is that of its page, whatever slashes it ends with.
pub proof fn an_icon_is_sent_as_its_type(
    bytes: &[u8],
    kind: &'static str,
    there: Reply,
    missing: Reply,
    slug: Seq<char>,
    path: &str,
    named: Option<String>,
)
    requires
        call_ensures(sniff_image_type, (bytes,), kind),
        call_ensures(serve_icon, (Some(bytes),), there),
        call_ensures(serve_icon, (None,), missing),
        path@ == slug || path@ == slug.push('/'),
        slug.len() > 0 ==> slug.last() != '/',
        call_ensures(icon_slug, (path,), named),
    ensures
        there.status == 200 && pairs(there.headers@)[0] == ("content-type"@, kind@),
        missing.status == 404,
        named is Some == is_slug(slug),
        named matches Some(s) ==> s@ == slug,
{
    reveal_strlit("/");
    assert("/"@ =~= seq!['/']);
    assert(there@.headers[0] == ("content-type"@, kind@));
    reveal_with_fuel(stripped_end, 2);
    if slug.len() > 0 {
        assert(!"/"@.contains(slug.last()));
    }
    assert("/"@[0] == '/');
    assert(slug.push('/').drop_last() =~= slug);
    assert(stripped_end(path@, "/"@) == slug);
}

/// What stands above a page is named from the outermost in, the page last.
pub proof fn what_is_above_a_page_is_named_from_outside(
    app: Seq<char>,
    rest: &str,
    slug: &str,
    below: Vec<String>,
    r: Vec<String>,
    i: int,
)
    requires
        !app.contains('/'),
        call_ensures(prefixes, (slug,), r),
        call_ensures(prefixes, (rest,), below),
        0 <= i < below.len(),
    ensures
        slug@ == app ==> r.len() == 1 && r@[0]@ == app,
        slug@ == app + "/"@ + rest@ ==> r.len() == below.len() + 1 && r@[0]@ == app && r@[i + 1]@
            == app + "/"@ + below@[i]@,
{
    reveal_strlit("/");
    assert("/"@ =~= seq!['/']);
    let sep = "/"@;
    if slug@ == app {
        lemma_split_whole(app, '/');
        assert(split(app, '/').take(1) =~= seq![app]);
        assert(r@[0]@ == joined(seq![app], sep));
    }
    if slug@ == app + "/"@ + rest@ {
        assert(slug@ =~= app + seq!['/'] + rest@);
        lemma_split_head(app, '/', rest@);
        let parts = split(rest@, '/');
        let all = seq![app] + parts;
        assert(split(slug@, '/') == all);
        assert(all.take(1) =~= seq![app]);
        assert(r@[0]@ == joined(seq![app], sep));
        assert(all.take(i + 2) =~= seq![app] + parts.take(i + 1));
        assert(r@[i + 1]@ == joined(all.take(i + 1 + 1), sep));
        assert(below@[i]@ == joined(parts.take(i + 1), sep));
        lemma_joined_front(app, parts.take(i + 1), sep);
    }
}

proof fn lemma_joined_front(one: Seq<char>, parts: Seq<Seq<char>>, sep: Seq<char>)
    requires
        parts.len() > 0,
    ensures
        joined(seq![one] + parts, sep) == one + sep + joined(parts, sep),
    decreases parts.len(),
{
    let all = seq![one] + parts;
    if parts.len() == 1 {
        assert(all.drop_last() =~= seq![one]);
        assert(all.last() == parts[0]);
        assert(joined(seq![one], sep) == one);
    } else {
        assert(all.drop_last() =~= seq![one] + parts.drop_last());
        assert(all.last() == parts.last());
        lemma_joined_front(one, parts.drop_last(), sep);
        assert(joined(all, sep) =~= one + sep + joined(parts, sep));
    }
}

/// The apps that enclose a page are what stands above it, from the nearest out.
pub proof fn the_nearest_encloses_first(
    slug: &str,
    above: Vec<String>,
    r: Vec<String>,
    i: int,
)
    requires
        call_ensures(prefixes, (slug,), above),
        call_ensures(enclosing, (slug,), r),
        0 <= i < r.len(),
    ensures
        r.len() + 1 == above.len(),
        r@[i]@ == above@[r.len() - 1 - i]@,
{
    let parts = split(slug@, '/');
    assert(r@[i]@ == joined(parts.take(r.len() - i), "/"@));
    let j = r.len() - 1 - i;
    assert(above@[j]@ == joined(parts.take(j + 1), "/"@));
}

/// A page is looked for where its slug says, and a handler inside its app.
pub proof fn where_a_page_is_looked_for(
    config: Config,
    route: PageRoute,
    app: &str,
    r: Places,
    handler: Option<String>,
)
    requires
        app@ == route.app@,
        call_ensures(places, (&config, &route), r),
        call_ensures(handler_wasm, (&config, app), handler),
    ensures
        r.asset@ == inside(config.data_dir@, route.slug@),
        r.direct@ == inside(config.data_dir@, route.slug@ + ".html"@),
        r.index@ == inside(config.data_dir@, route.slug@ + "/index.html"@),
        r.handler is Some == is_slug(app@) && handler is Some == is_slug(app@),
        r.handler matches Some(p) ==> p@ == inside(config.data_dir@, app@ + "/handler.wasm"@) && p@
            == handler->0@,
{
}

/// A request arrives at its app as the visitor that the app's own cookie names, and is
/// let in by what is asked for on the path within the app.
pub proof fn a_request_arrives_at_its_gate(
    accounts: &mut Accounts,
    for_app: &mut Accounts,
    for_site: &mut Accounts,
    start: Accounts,
    meta: PageMeta,
    route: PageRoute,
    app: &str,
    within: &str,
    gate: String,
    asked: &str,
    path: &str,
    headers: Vec<(String, String)>,
    name: &str,
    cookies: Option<&str>,
    visitor: Option<User>,
    site: Option<User>,
    v: Option<&User>,
    w: Option<&User>,
    visits: bool,
    now: u64,
    answer: Option<Reply>,
    r: (Option<User>, Option<Reply>),
)
    requires
        start == *old(accounts),
        *old(for_app) == start,
        *old(for_site) == start,
        app@ == route.app@,
        within@ == "/"@ + route.rest@,
        call_ensures(PageMeta::gate_for, (&meta, within), gate),
        asked@ == gate@,
        name@ == "cookie"@,
        call_ensures(header_value, (&headers, name), cookies),
        call_ensures(current_app_user, (for_app, app, cookies, now), visitor),
        call_ensures(current_site_user, (for_site, cookies, now), site),
        visitor is Some == v is Some,
        visitor is Some ==> visitor->0.id@ == v->0.id@,
        site is Some == w is Some,
        site is Some ==> site->0.id@ == w->0.id@,
        call_ensures(is_visitor_navigation, (&headers,), visits),
        call_ensures(
            gate_check,
            (&start, asked, app, v, w, path, route.is_api, visits),
            answer,
        ),
        call_ensures(arrive, (accounts, &meta, &route, path, &headers, now), r),
    ensures
        r.0 is Some == visitor is Some,
        r.0 is Some ==> r.0->0.id@ == visitor->0.id@,
        r.1 is Some == answer is Some,
        r.1 is Some ==> r.1->0@ == answer->0@,
{
}

/// What is hidden answers 404 to everybody; then it is asked who may pass; and only
/// behind that is what there is.
pub proof fn hidden_comes_before_the_gate(
    config: Config,
    accounts: &mut Accounts,
    at_gate: &mut Accounts,
    meta: PageMeta,
    hidden: Vec<bool>,
    route: PageRoute,
    path: &str,
    headers: Vec<(String, String)>,
    found: Found,
    now: u64,
    hides: bool,
    gate: (Option<User>, Option<Reply>),
    there: Serve,
    r: (Option<User>, Serve),
)
    requires
        *old(accounts) == *old(at_gate),
        call_ensures(is_hidden, (&hidden,), hides),
        call_ensures(arrive, (at_gate, &meta, &route, path, &headers, now), gate),
        call_ensures(resolve, (&config, &route, &found), there),
        call_ensures(
            serve_page,
            (&config, accounts, &meta, &hidden, &route, path, &headers, &found, now),
            r,
        ),
    ensures
        hides ==> r.0 is None && (r.1@ matches Served::Answer(a) && a.status == 404),
        !hides && gate.1 is Some ==> r.1@ == Served::Answer(gate.1->0@),
        !hides && gate.1 is None ==> r.1@ == there@,
        !hides ==> r.0 is Some == gate.0 is Some,
{
}

/// A page is among those on the index where it would stand there by itself.
pub proof fn a_page_stands_on_the_index_by_itself(
    accounts: Accounts,
    c: Candidate,
    slug: &str,
    visitor: Option<&User>,
    on: bool,
)
    requires
        slug@ == c.card.slug@,
        call_ensures(on_index, (&accounts, &c.meta, &c.app_meta, slug, visitor), on),
    ensures
        showing(accounts, id_of(visitor))(c) == on,
{
}

/// A card leads to its page and shows its title, or its slug where it has none; both
/// are escaped.
pub proof fn a_card_leads_to_its_page(
    card: PageCard,
    slug: &str,
    shown: &str,
    now: u64,
    safe_slug: String,
    safe_title: String,
    icon: String,
    r: String,
)
    requires
        slug@ == card.slug@,
        card.title matches Some(t) ==> shown@ == t@,
        card.title is None ==> shown@ == slug@,
        call_ensures(escape_html, (slug,), safe_slug),
        call_ensures(escape_html, (shown,), safe_title),
        call_ensures(icon_markup, (&card.icon,), icon),
        call_ensures(card_markup, (&card, now), r),
    ensures
        exists|before: Seq<char>, after: Seq<char>|
            r@ == #[trigger] (before + ("<a href=\"/p/"@ + safe_slug@ + "\">"@ + icon@
                + "<span class=\"meta\"><span class=\"title\">"@ + safe_title@ + "</span>"@)
                + after),
{
    let title = crate::content::serve::title_text(card.title);
    let searched = match title {
        Some(t) => t,
        None => Seq::empty(),
    };
    reveal_strlit("\"><a href=\"/p/");
    reveal_strlit("\">");
    reveal_strlit("<a href=\"/p/");
    reveal_strlit("</span><span class=\"slug\">");
    reveal_strlit("</span>");
    let before = "<li data-slug=\""@ + escaped(crate::text::lowercase(card.slug@))
        + "\" data-title=\""@ + escaped(crate::text::lowercase(searched)) + "\">"@;
    let middle = "<a href=\"/p/"@ + safe_slug@ + "\">"@ + icon@
        + "<span class=\"meta\"><span class=\"title\">"@ + safe_title@ + "</span>"@;
    assert(before.len() + middle.len() <= r@.len());
    let after = r@.skip((before.len() + middle.len()) as int);
    assert(r@ =~= before + middle + after);
}

/// An icon's text or address is escaped in its markup.
pub proof fn an_icons_text_is_escaped(
    icon: Icon,
    text: &str,
    safe: String,
    r: String,
)
    requires
        icon matches Icon::Text(t) ==> t@ == text@,
        icon matches Icon::Src(t) ==> t@ == text@,
        icon matches Icon::Generated(t, _) ==> t@ == text@,
        call_ensures(escape_html, (text,), safe),
        call_ensures(icon_markup, (&icon,), r),
    ensures
        icon is Text ==> r@ == "<span class=\"icon icon-text\">"@ + safe@ + "</span>"@,
        icon is Src ==> r@ == "<span class=\"icon\"><img src=\""@ + safe@ + "\" alt=\"\"></span>"@,
        icon is Generated ==> (safe@ + "</span>"@).is_suffix_of(r@),
{
    if icon is Generated {
        let tail = safe@ + "</span>"@;
        assert(r@.subrange(r@.len() - tail.len(), r@.len() as int) =~= tail);
    }
}

/// A file of SQL is read by its own name, whatever directory it is in; nothing else is
/// read, and what cannot be read stops it.
pub proof fn files_of_sql_are_read_by_name(
    front: Vec<Result<EntryHeader, String>>,
    listing: Vec<Result<EntryHeader, String>>,
    contents: Vec<Result<Vec<u8>, String>>,
    dir: Seq<char>,
    name: Seq<char>,
    file: &str,
    sql: bool,
    e: EntryHeader,
    before: Result<Vec<(String, String)>, String>,
    r: Result<Vec<(String, String)>, String>,
)
    requires
        listing@ == front@.push(Ok::<EntryHeader, String>(e)),
        contents.len() == listing.len(),
        !name.contains('/'),
        e.path@ == name || e.path@ == dir + "/"@ + name,
        file@ == name,
        call_ensures(is_migration, (file,), sql),
        call_ensures(sql_in, (&front, &contents), before),
        call_ensures(sql_in, (&listing, &contents), r),
    ensures
        before is Err ==> r is Err,
        before is Ok && (!e.is_file || !sql) ==> r is Ok && pairs(
            r->Ok_0@,
        ) == pairs(before->Ok_0@),
        before is Ok && e.is_file && sql && (contents@.last() matches Ok(b)
            && valid_utf8(b@)) ==> r is Ok && pairs(r->Ok_0@) == pairs(before->Ok_0@).push(
            (name, decode_utf8(contents@.last()->Ok_0@)),
        ),
        before is Ok && e.is_file && sql && (contents@.last() is Err || (
        contents@.last() matches Ok(b) && !valid_utf8(b@))) ==> r is Err,
{
    reveal_strlit("/");
    assert("/"@ =~= seq!['/']);
    lemma_split_whole(name, '/');
    lemma_split_both(dir, '/', name);
    if e.path@ == dir + "/"@ + name {
        assert(e.path@ =~= dir + seq!['/'] + name);
    }
    assert(split(e.path@, '/').last() == name);
    let l = crate::content::bundle::listing_view(listing@);
    let f = crate::content::bundle::listing_view(front@);
    let c = crate::content::bundle::contents_view(contents@);
    assert(l.drop_last() =~= f);
    assert(l.last() == crate::content::bundle::step_view(Ok::<EntryHeader, String>(e)));
    assert(c[l.len() - 1] == crate::content::bundle::content_view(contents@.last()));
    if before is Ok {
        assert(crate::content::bundle::named_view(before->Ok_0@) =~= pairs(before->Ok_0@));
    }
    if r is Ok {
        assert(crate::content::bundle::named_view(r->Ok_0@) =~= pairs(r->Ok_0@));
    }
}

/// A page of the site's own holds its body, and its title escaped.
pub proof fn a_page_holds_its_body(
    title: &str,
    body: &str,
    script: Option<&str>,
    safe: String,
    full: String,
    form: String,
)
    requires
        call_ensures(escape_html, (title,), safe),
        call_ensures(page, (title, body, script), full),
        call_ensures(form_page, (title, body), form),
    ensures
        exists|a: Seq<char>, b: Seq<char>, c: Seq<char>|
            full@ == #[trigger] (a + safe@ + b + body@ + c),
        exists|a: Seq<char>, b: Seq<char>, c: Seq<char>|
            form@ == #[trigger] (a + safe@ + b + body@ + c),
{
    let a = crate::ui::HEAD@;
    let b = "</title><style>"@ + crate::ui::STYLE@
        + "</style></head><body><div class=\"container\">"@;
    let c = "</div>"@ + match script {
        Some(s) => s@,
        None => Seq::empty(),
    } + "</body></html>"@;
    assert(full@ =~= a + safe@ + b + body@ + c);
    let d = "</title><style>"@ + crate::ui::STYLE@ + "</style><style>"@ + crate::ui::CENTRED@
        + "</style></head><body><div class=\"container narrow\">"@;
    assert(form@ =~= a + safe@ + d + body@ + "</div></body></html>"@);
}

/// Below its title a card shows the slug, where the title is not the slug itself, and how
/// long ago the page was changed, where that is known.
pub proof fn a_card_says_when_it_changed(
    card: PageCard,
    slug: &str,
    then: u64,
    now: u64,
    safe_slug: String,
    since: String,
    old: &str,
    safe_since: String,
    r: String,
)
    requires
        slug@ == card.slug@,
        call_ensures(escape_html, (slug,), safe_slug),
        call_ensures(relative_time, (then, now), since),
        old@ == since@,
        call_ensures(escape_html, (old,), safe_since),
        card.modified matches Some(t) ==> t == then,
        call_ensures(card_markup, (&card, now), r),
    ensures
        ("<span class=\"slug\">"@ + if card.title is Some {
            safe_slug@
        } else {
            ""@
        } + if card.modified is Some {
            " <span class=\"when\">"@ + safe_since@ + "</span>"@
        } else {
            ""@
        } + "</span></span></a></li>"@).is_suffix_of(r@),
{
    reveal_strlit("");
    reveal_strlit("</span><span class=\"slug\">");
    reveal_strlit("<span class=\"slug\">");
    let tail = "<span class=\"slug\">"@ + if card.title is Some {
        safe_slug@
    } else {
        ""@
    } + if card.modified is Some {
        " <span class=\"when\">"@ + safe_since@ + "</span>"@
    } else {
        ""@
    } + "</span></span></a></li>"@;
    let all = r@;
    assert(all.subrange(all.len() - tail.len(), all.len() as int) =~= tail);
}

/// An image of the kind that begins with `RIFF` has more than the twelve bytes of its
/// header.
pub proof fn a_header_alone_is_no_image(bytes: &[u8], r: &'static str)
    requires
        call_ensures(sniff_image_type, (bytes,), r),
        bytes@.len() <= 12,
    ensures
        r@ != "image/webp"@,
{
    reveal_strlit("image/webp");
    reveal_strlit("image/svg+xml");
    reveal_strlit("image/png");
    reveal_strlit("image/jpeg");
    reveal_strlit("image/gif");
    reveal_strlit("image/x-icon");
    reveal_strlit("text/plain; charset=utf-8");
    reveal_strlit("application/octet-stream");
    assert("image/webp"@[6] == 'w' && "image/jpeg"@[6] == 'j');
}

/// The files of SQL in an upload are those in its listing, of which what they hold is read
/// whole, and nothing of any other file.
pub proof fn an_uploads_files_of_sql_are_read(
    body: &[u8],
    listing: Vec<Result<EntryHeader, String>>,
    upto: Vec<u64>,
    contents: Vec<Result<Vec<u8>, String>>,
    read: Result<Vec<(String, String)>, String>,
    r: Result<Vec<(String, String)>, String>,
)
    requires
        call_ensures(list_upload, (body,), listing),
        upto.len() == listing.len(),
        forall|i: int|
            #![trigger upto@[i]]
            0 <= i < upto.len() ==> upto@[i] == if listing@[i] matches Ok(e) && e.is_file
                && has_ending(split(e.path@, '/').last(), ".sql"@) {
                u64::MAX
            } else {
                0u64
            },
        call_ensures(read_upload, (body, &upto), contents),
        call_ensures(sql_in, (&listing, &contents), read),
        call_ensures(read_sql_files, (body,), r),
    ensures
        r is Ok == read is Ok,
        r matches Ok(files) ==> pairs(files@) == pairs(read->Ok_0@),
        r matches Err(m) ==> m@ == read->Err_0@,
{
    let l = crate::content::bundle::listing_view(listing@);
    assert(l.len() == listing.len());
    let asked = crate::content::bundle::sql_asked_for(l);
    assert forall|i: int| 0 <= i < asked.len() implies asked[i] == upto@[i] by {
        assert(l[i] == crate::content::bundle::step_view(listing@[i]));
    }
    assert(asked =~= upto@);
    if r is Ok {
        assert(crate::content::bundle::named_view(r->Ok_0@) =~= pairs(r->Ok_0@));
        assert(crate::content::bundle::named_view(read->Ok_0@) =~= pairs(read->Ok_0@));
    }
}

/// An archive without sparse files is always read; one whose first file is sparse, and is
/// described so far out that its end is past what can be counted, is not.
pub proof fn which_archives_are_past_counting(body: &[u8], b: Seq<u8>, size: int, r: bool)
    requires
        call_ensures(past_counting, (body,), r),
        b == gunzipped(body@),
        b.len() <= u64::MAX,
    ensures
        (forall|k: int| #[trigger] is_block(b, k) ==> b[k + 156] != 83) ==> !r,
        b.len() >= 1024 && b[156] == 83 && b[482] == 1 && b.subrange(257, 265) == seq![
            117u8,
            115u8,
            116u8,
            97u8,
            114u8,
            32u8,
            32u8,
            0u8,
        ] && b[124] >= 128 && size == b[128] * 0x100_0000_0000_0000 + b[129] * 0x1_0000_0000_0000
            + b[130] * 0x100_0000_0000 + b[131] * 0x1_0000_0000 + b[132] * 0x100_0000 + b[133]
            * 0x1_0000 + b[134] * 0x100 + b[135] && u64::MAX - 1535 < size <= u64::MAX - 1023
            ==> r,
{
    if forall|k: int| #[trigger] is_block(b, k) ==> b[k + 156] != 83 {
        archives_without_sparse_files_are_read(b, 0, None, false, false);
    }
    if b.len() >= 1024 && b[156] == 83 && b[482] == 1 && b[124] >= 128 {
        let h = b.subrange(0, 512);
        assert(h[156] == b[156] && h[482] == b[482] && h[124] == b[124]);
        assert(h.subrange(257, 265) =~= b.subrange(257, 265));
        let field = h.subrange(124, 136);
        assert(field[0] == b[124] && field[4] == b[128] && field[5] == b[129] && field[6] == b[130]
            && field[7] == b[131] && field[8] == b[132] && field[9] == b[133] && field[10] == b[134]
            && field[11] == b[135]);
        let zero = Seq::new(512, |i: int| 0u8);
        assert(zero[156] == 0);
        assert(h != zero);
    }
}

/// An image whose first 256 bytes begin as a drawing or as XML, whatever blanks are before
/// that, is a drawing; and nothing else is.
pub proof fn a_drawing_begins_as_xml(
    bytes: &[u8],
    text: &str,
    begins: String,
    r: &'static str,
)
    requires
        text@ == lossy(
            if bytes@.len() <= 256 {
                bytes@
            } else {
                bytes@.take(256)
            },
        ),
        call_ensures(trim_start, (text,), begins),
        call_ensures(sniff_image_type, (bytes,), r),
    ensures
        (r@ == "image/svg+xml"@) == ("<svg"@.is_prefix_of(begins@) || "<?xml"@.is_prefix_of(
            begins@,
        )),
{
    reveal_strlit("image/webp");
    reveal_strlit("image/svg+xml");
    reveal_strlit("image/png");
    reveal_strlit("image/jpeg");
    reveal_strlit("image/gif");
    reveal_strlit("image/x-icon");
    reveal_strlit("text/plain; charset=utf-8");
    reveal_strlit("application/octet-stream");
    assert(bytes@.take(bytes@.len() as int) =~= bytes@);
    assert(text@ == lossy(crate::content::serve::front(bytes@, 256)));
    assert(begins@ == crate::text::trimmed_start(text@));
    assert(r@ == crate::content::serve::image_type(bytes@));
    assert("image/svg+xml"@.len() == 13 && "image/webp"@.len() == 10 && "image/png"@.len() == 9
        && "image/jpeg"@.len() == 10 && "image/gif"@.len() == 9 && "image/x-icon"@.len() == 12
        && "text/plain; charset=utf-8"@.len() == 25 && "application/octet-stream"@.len() == 24);
}

} // verus!
