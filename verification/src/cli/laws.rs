//! What holds of publishing from a shell: each law is about what a function is handed
//! and what it gives back.
use crate::cli::deploy::{
    not_packed, page_to_check, target, uploaded, uploads, verify, Deploy, Outcome, Packed, Parts,
    Said, Upload,
};
use crate::cli::init::{init, manifest, NewProject};
use crate::cli::print::{page_row, print_pages, print_rows, render_cell, PageLine, Rows, Value};
use crate::cli::project::{
    built_handler, choose_slug, find_upload_url, first_slug, handler_step, has_ending, is_kept,
    is_migration, last_slug, last_spa, read_manifest, read_project, read_slug, slug_line,
    upload_url_in, web_root, Found, HandlerStep, Project, WebRoots,
};
use crate::cli::scalar::{json_scalar, parse_integer, scalar_text, Scalar};
use crate::cli::wire::{
    candidates, carried, endpoint, first_json, is_json, parse_sse, Mcp, Opened, Payload,
};
use crate::content::store::inside;
use crate::platform::scaffold::Templates;
use crate::text::{
    decimal, digits, holds, join, lemma_split_head, lemma_split_len, lemma_split_whole, lines_of,
    pairs, split, stripped, stripped_end, stripped_start, texts, trimmed, words_of,
};
use crate::text_laws::{is_tight, lemma_digits, lemma_word, number};
use vstd::prelude::*;

verus! {

/// Where an upload stands among the others: first the schema, then the manifest, then
/// the pages, then the handler, and the project last.
pub open spec fn rank(u: Upload) -> int {
    match u {
        Upload::Migrations => 1,
        Upload::Manifest => 2,
        Upload::Bundle => 3,
        Upload::Handler => 4,
        Upload::Source => 5,
    }
}

/// The schema and the manifest are uploaded before the pages, and these before the
/// handler and the project; what there is is uploaded once, the pages always.
pub proof fn uploads_come_in_order(parts: Parts, r: Vec<Upload>, i: int, j: int)
    requires
        call_ensures(uploads, (&parts,), r),
    ensures
        0 <= i < j < r.len() ==> rank(r@[i]) < rank(r@[j]),
        r@.contains(Upload::Bundle),
        r@.contains(Upload::Migrations) == parts.migrations,
        r@.contains(Upload::Manifest) == parts.manifest,
        r@.contains(Upload::Handler) == parts.handler,
        r@.contains(Upload::Source) == parts.keep_source,
{
    if 0 <= i < j < r.len() {
        assert(crate::cli::deploy::turn(r@[i]) < crate::cli::deploy::turn(r@[j]));
    }
}

/// An upload says behind the URL what it is.
pub proof fn an_upload_says_what_it_is(url: &str, u: Upload, spa: bool, r: String)
    requires
        call_ensures(target, (url, u, spa), r),
    ensures
        u == Upload::Migrations ==> r@ == url@ + "?migrations"@,
        u == Upload::Manifest ==> r@ == url@ + "?manifest"@,
        u == Upload::Bundle && spa ==> r@ == url@ + "?bundle&spa"@,
        u == Upload::Bundle && !spa ==> r@ == url@ + "?bundle"@,
        u == Upload::Handler ==> r@ == url@ + "?handler"@,
        u == Upload::Source ==> r@ == url@ + "?source"@,
{
}

/// An upload that is refused, or could not be packed, stops a deploy, unless it is the
/// project itself; what is accepted never does.
pub proof fn only_the_project_may_fail(
    u: Upload,
    ok: bool,
    status: &str,
    body: &str,
    r: Outcome,
    unpacked: Outcome,
)
    requires
        call_ensures(uploaded, (u, ok, status, body), r),
        call_ensures(not_packed, (u, body), unpacked),
    ensures
        r is Says == ok,
        r is Fails == (!ok && u != Upload::Source),
        r is Warns == (!ok && u == Upload::Source),
        unpacked is Warns == (u == Upload::Source),
        unpacked is Fails == (u != Upload::Source),
        ok && u != Upload::Source ==> (r matches Outcome::Says(text) && text@ == body@),
{
}

/// A deploy begins with the first of its uploads.
pub proof fn a_deploy_begins_with_the_first(
    url: String,
    spa: bool,
    parts: Parts,
    u: Upload,
    d: Deploy,
    next: Option<Upload>,
)
    requires
        call_ensures(Deploy::begin, (url, spa, &parts), d),
        call_ensures(Deploy::next, (&d,), next),
    ensures
        next matches Some(first) && (parts.migrations ==> first == Upload::Migrations) && (
        !parts.migrations && parts.manifest ==> first == Upload::Manifest) && (!parts.migrations
            && !parts.manifest ==> first == Upload::Bundle),
        d.upload_url@ == url@ && d.spa == spa,
{
    let list = d.done@ + d.left@;
    assert(list =~= d.left@);
    assert(list.contains(Upload::Bundle));
    let b = list.index_of(Upload::Bundle);
    let first = list[0];
    assert(list.contains(first));
    if 0 < b {
        assert(crate::cli::deploy::turn(list[0]) < crate::cli::deploy::turn(list[b]));
    }
    if parts.migrations {
        assert(list.contains(Upload::Migrations));
        let i = list.index_of(Upload::Migrations);
        if 0 < i {
            assert(crate::cli::deploy::turn(list[0]) < crate::cli::deploy::turn(list[i]));
        }
    } else {
        assert(!list.contains(Upload::Migrations));
        if parts.manifest {
            assert(list.contains(Upload::Manifest));
            let i = list.index_of(Upload::Manifest);
            if 0 < i {
                assert(crate::cli::deploy::turn(list[0]) < crate::cli::deploy::turn(list[i]));
            }
        } else {
            assert(!list.contains(Upload::Manifest));
        }
    }
}

/// A deploy goes on to the next upload where one went through, or was only warned of,
/// and ends where one failed or was not answered.
pub proof fn a_deploy_goes_on_until_it_fails(
    d: &mut Deploy,
    before: Deploy,
    after: Deploy,
    answer: Result<Said, String>,
    r: Outcome,
    first: Option<Upload>,
    next: Option<Upload>,
)
    requires
        before == *old(d),
        after == *final(d),
        !before.failed,
        before.left.len() > 0,
        call_ensures(Deploy::next, (&before,), first),
        call_ensures(Deploy::answered, (d, answer), r),
        call_ensures(Deploy::next, (&after,), next),
    ensures
        first == Some(before.left@[0]),
        answer is Err ==> r is Fails,
        answer matches Ok(said) ==> said.ok ==> r is Says,
        answer matches Ok(said) ==> !said.ok ==> r is Fails == (first != Some(Upload::Source)),
        r is Fails ==> next is None && after.done@ == before.done@,
        !(r is Fails) ==> next == if before.left.len() > 1 {
            Some(before.left@[1])
        } else {
            None
        },
        !(r is Fails) ==> after.done@ == before.done@.push(before.left@[0]),
{
}

/// What was packed is put to the upload URL; an empty schema is passed over.
pub proof fn what_is_packed_is_put(
    d: &mut Deploy,
    before: Deploy,
    after: Deploy,
    bytes: Vec<u8>,
    url: &str,
    at: String,
    r: Packed,
)
    requires
        before == *old(d),
        after == *final(d),
        !before.failed,
        before.left.len() > 0,
        url@ == before.upload_url@,
        call_ensures(target, (url, before.left@[0], before.spa), at),
        call_ensures(Deploy::packed, (d, Ok::<Vec<u8>, String>(bytes)), r),
    ensures
        before.left@[0] == Upload::Migrations && bytes.len() == 0 ==> r is Skipped && after.left@
            == before.left@.skip(1),
        before.left@[0] != Upload::Migrations || bytes.len() > 0 ==> after == before && (
        r matches Packed::Put { url: u, body } && u@ == at@ && body == bytes),
{
}

/// A page that was published is looked at: it must answer, and it is warned of where
/// it reaches for the root of the domain.
pub proof fn a_published_page_is_looked_at(
    page: &str,
    slug: &str,
    ok: bool,
    status: &str,
    html: &str,
    r: Result<Vec<String>, String>,
)
    requires
        call_ensures(verify, (page, slug, ok, status, html), r),
    ensures
        r is Ok == ok,
        r matches Ok(warnings) ==> (warnings.len() > 0) == (holds(html@, "src=\"/assets/"@)
            || holds(html@, "href=\"/assets/"@)),
{
    if let Ok(warnings) = r {
        assert(texts(warnings@).len() == warnings.len());
    }
}

/// The page of a project is below `/p/` on its server, whatever slash the server's URL
/// ends with; its tools are below `/mcp`.
pub proof fn where_a_project_is_published(
    base: Seq<char>,
    url: &str,
    slug: &str,
    page: String,
    tools: String,
)
    requires
        base.len() > 0,
        base.last() != '/',
        url@ == base || url@ == base.push('/'),
        call_ensures(page_to_check, (url, slug), page),
        call_ensures(endpoint, (url,), tools),
    ensures
        page@ == base + "/p/"@ + slug@ + "/"@,
        tools@ == base + "/mcp"@,
{
    reveal_strlit("/");
    assert("/"@ =~= seq!['/']);
    assert("/"@[0] == '/');
    reveal_with_fuel(stripped_end, 2);
    assert(!"/"@.contains(base.last()));
    assert(base.push('/').drop_last() =~= base);
    assert(stripped_end(url@, "/"@) == base);
}

/// A slug that is asked for wins over the manifest's, and that over the directory's.
pub proof fn a_slug_that_is_asked_for_wins(
    asked: Option<String>,
    given: Option<String>,
    directory: Option<String>,
    r: Result<String, String>,
)
    requires
        call_ensures(choose_slug, (asked, given, directory), r),
    ensures
        asked matches Some(s) ==> (r matches Ok(x) && x@ == s@),
        asked is None && given is Some ==> (r matches Ok(x) && x@ == given->0@),
        asked is None && given is None && directory is Some ==> (r matches Ok(x) && x@
            == directory->0@),
        asked is None && given is None && directory is None ==> r is Err,
{
}

/// What is served is a build's output where there is one: `dist`, then `build`, then
/// `public`, then the directory itself.
pub proof fn a_builds_output_is_served(dir: &str, found: WebRoots, r: Result<String, String>)
    requires
        call_ensures(web_root, (dir, &found), r),
    ensures
        found.dist ==> (r matches Ok(p) && p@ == inside(dir@, "dist"@)),
        !found.dist && found.build ==> (r matches Ok(p) && p@ == inside(dir@, "build"@)),
        !found.dist && !found.build && found.public ==> (r matches Ok(p) && p@ == inside(
            dir@,
            "public"@,
        )),
        !found.dist && !found.build && !found.public && found.here ==> (r matches Ok(p) && p@
            == dir@),
        !found.dist && !found.build && !found.public && !found.here ==> r is Err,
{
}

/// A project is published under the slug that is chosen for it, from where its pages
/// are; it routes on the client where its manifest or its flag says so.
pub proof fn what_a_project_is_published_as(
    dir: &str,
    asked: Option<String>,
    flag: bool,
    found: Found,
    text: &str,
    read: (Option<String>, bool),
    slug: Result<String, String>,
    root: Result<String, String>,
    r: Result<Project, String>,
)
    requires
        found.manifest matches Some(m) && m@ == text@,
        call_ensures(read_manifest, (text,), read),
        call_ensures(choose_slug, (asked, read.0, found.directory), slug),
        call_ensures(web_root, (dir, &found.roots), root),
        call_ensures(read_project, (dir, asked, flag, found), r),
    ensures
        r is Ok == (slug is Ok && root is Ok),
        r matches Ok(p) ==> p.slug@ == slug->Ok_0@ && p.web_root@ == root->Ok_0@ && p.spa == (flag
            || read.1),
{
}

/// A component that is built already is used, and else built where it can be.
pub proof fn a_built_component_is_used(dir: &str, prebuilt: bool, source: bool, r: HandlerStep)
    requires
        call_ensures(handler_step, (dir, prebuilt, source), r),
    ensures
        prebuilt ==> (r matches HandlerStep::Use(p) && p@ == inside(dir@, "handler.wasm"@)),
        !prebuilt && source ==> (r matches HandlerStep::Build(p) && p@ == inside(
            dir@,
            "handler/Cargo.toml"@,
        )),
        !prebuilt && !source ==> r is Nothing,
{
}

/// The first component that a build produced is taken, and none is a failure.
pub proof fn the_first_component_is_taken(
    files: Vec<String>,
    i: int,
    stem: Seq<char>,
    r: Result<String, String>,
)
    requires
        call_ensures(built_handler, (&files,), r),
        0 <= i < files.len(),
    ensures
        stem.len() > 0 && files@[i]@ == stem + ".wasm"@ ==> r is Ok,
        i == 0 && stem.len() > 0 && files@[i]@ == stem + ".wasm"@ ==> r->Ok_0@ == files@[0]@,
        r matches Ok(file) ==> ".wasm"@.is_suffix_of(file@) && file@.len() > 5,
{
    reveal_strlit(".wasm");
    if stem.len() > 0 && files@[i]@ == stem + ".wasm"@ {
        let file = files@[i]@;
        assert(file.subrange(stem.len() as int, file.len() as int) =~= ".wasm"@);
        assert(has_ending(file, ".wasm"@));
        assert(has_ending(files@[i]@, ".wasm"@));
        if let Ok(found) = r {
            let k = choose|k: int|
                0 <= k < files.len() && (#[trigger] files@[k])@ == found@ && has_ending(
                    found@,
                    ".wasm"@,
                ) && crate::cli::project::no_component(files@, k);
            if 0 < k && i == 0 {
                assert(!has_ending(files@[0]@, ".wasm"@));
            }
        }
    }
}

/// A migration is a file whose name ends in `.sql`.
pub proof fn migrations_by_their_ending(stem: Seq<char>, file: &str, r: bool)
    requires
        call_ensures(is_migration, (file,), r),
    ensures
        stem.len() > 0 && file@ == stem + ".sql"@ ==> r,
        r ==> exists|name: Seq<char>| name.len() > 0 && file@ == #[trigger] (name + ".sql"@),
{
    reveal_strlit(".sql");
    let s = file@;
    if stem.len() > 0 && s == stem + ".sql"@ {
        assert(s.subrange(stem.len() as int, s.len() as int) =~= ".sql"@);
    }
    if r {
        let name = s.take(s.len() - 4);
        assert(s =~= name + ".sql"@) by {
            assert(s.subrange(s.len() - 4, s.len() as int) =~= ".sql"@);
            assert forall|k: int| 0 <= k < s.len() implies s[k] == (name + ".sql"@)[k] by {
                if k >= s.len() - 4 {
                    assert(s.subrange(s.len() - 4, s.len() as int)[k - (s.len() - 4)] == s[k]);
                }
            }
        }
    }
}

/// Everything of a project is kept with its app but what can be restored.
pub proof fn what_is_kept_of_a_project(name: &str, r: bool)
    requires
        call_ensures(is_kept, (name,), r),
    ensures
        name@ == "node_modules"@ || name@ == "target"@ || name@ == ".git"@ ==> !r,
        name@ != "node_modules"@ && name@ != "target"@ && name@ != ".git"@ ==> r,
{
}

/// The lines of a text with one more line in front.
proof fn lemma_line_before(first: Seq<char>, rest: Seq<char>)
    requires
        !first.contains('\n'),
        first.len() > 0 ==> first.last() != '\r',
    ensures
        lines_of(first + seq!['\n'] + rest) == seq![first] + lines_of(rest),
{
    let s = first + seq!['\n'] + rest;
    lemma_split_head(first, '\n', rest);
    lemma_split_len(rest, '\n');
    let pieces = split(rest, '\n');
    let all = seq![first] + pieces;
    assert(all.last() == pieces.last());
    assert(all.drop_last() =~= seq![first] + pieces.drop_last());
    assert(crate::text::without_return(first) =~= first);
    assert(lines_of(s) =~= seq![first] + lines_of(rest));
}

/// A text of a single line.
proof fn lemma_one_line(s: Seq<char>)
    requires
        s.len() > 0,
        !s.contains('\n'),
    ensures
        lines_of(s) == seq![s],
{
    lemma_split_whole(s, '\n');
    let pieces = split(s, '\n');
    assert(pieces.drop_last() =~= Seq::empty());
    assert(lines_of(s) =~= seq![s]);
}

proof fn lemma_last_slug(a: Seq<Seq<char>>, b: Seq<Seq<char>>)
    ensures
        last_slug(a + b) == if last_slug(b) is Some {
            last_slug(b)
        } else {
            last_slug(a)
        },
        first_slug(a + b) == if first_slug(a) is Some {
            first_slug(a)
        } else {
            first_slug(b)
        },
    decreases b.len(),
{
    if b.len() == 0 {
        assert(a + b =~= a);
    } else {
        assert((a + b).drop_last() =~= a + b.drop_last());
        assert((a + b).last() == b.last());
        lemma_last_slug(a, b.drop_last());
    }
}

/// The slug of a manifest is what stands behind `slug =`, without its quotes; a line
/// on something else gives none.
pub proof fn a_line_gives_a_slug(
    name: Seq<char>,
    line: &str,
    full: (Option<String>, bool),
    slug: Option<String>,
)
    requires
        is_tight(name),
        name[0] != '"' && name[0] != '=' && name.last() != '"',
        !name.contains('\n'),
        line@ == "slug = \""@ + name + "\""@,
        call_ensures(read_manifest, (line,), full),
        call_ensures(read_slug, (line,), slug),
    ensures
        full.0 matches Some(s) && s@ == name,
        slug matches Some(s) && s@ == name,
        !full.1,
{
    reveal_strlit("slug = \"");
    reveal_strlit("slug");
    reveal_strlit("spa");
    reveal_strlit("\"");
    reveal_strlit(" =");
    let s = line@;
    assert(!s.contains('\n')) by {
        if s.contains('\n') {
            let k = s.index_of('\n');
            if 8 <= k < 8 + name.len() {
                assert(name[k - 8] == '\n');
            }
        }
    }
    lemma_one_line(s);
    assert(s.subrange(0, 4) =~= "slug"@);
    assert("slug"@.is_prefix_of(s));
    let rest = s.skip(4);
    let quoted = seq!['"'] + name + seq!['"'];
    assert(rest =~= seq![' ', '=', ' '] + quoted);
    let set = " ="@;
    assert(set =~= seq![' ', '=']);
    assert(set[0] == ' ' && set[1] == '=');
    reveal_with_fuel(stripped_start, 4);
    assert(rest.skip(1) =~= seq!['=', ' '] + quoted);
    assert(rest.skip(1).skip(1) =~= seq![' '] + quoted);
    assert(rest.skip(1).skip(1).skip(1) =~= quoted);
    assert(set.contains(rest[0]));
    assert(set.contains(rest.skip(1)[0]));
    assert(set.contains(rest.skip(1).skip(1)[0]));
    assert(quoted[0] == '"');
    assert(!set.contains(quoted[0]));
    assert(stripped_start(rest, set) == quoted);
    assert(trimmed(quoted) == quoted);
    lemma_unquoted(name);
    assert(slug_line(s) == Some(name));
    assert(!"spa"@.is_prefix_of(s)) by {
        if "spa"@.is_prefix_of(s) {
            assert(s.subrange(0, 3)[1] == 'p');
        }
    }
    reveal_with_fuel(last_slug, 2);
    reveal_with_fuel(first_slug, 2);
    reveal_with_fuel(last_spa, 2);
    assert(seq![s].drop_last() =~= Seq::empty());
}

proof fn lemma_unquoted(name: Seq<char>)
    requires
        name.len() > 0,
        name[0] != '"',
        name.last() != '"',
    ensures
        stripped(seq!['"'] + name + seq!['"'], "\""@) == name,
{
    reveal_strlit("\"");
    let set = "\""@;
    assert(set =~= seq!['"']);
    assert(set[0] == '"');
    let whole = seq!['"'] + name + seq!['"'];
    reveal_with_fuel(stripped_start, 2);
    reveal_with_fuel(stripped_end, 2);
    assert(set.contains(whole[0]));
    assert(whole.skip(1) =~= name + seq!['"']);
    assert(!set.contains((name + seq!['"'])[0]));
    assert(set.contains((name + seq!['"']).last()));
    assert((name + seq!['"']).drop_last() =~= name);
    assert(!set.contains(name.last()));
}

/// Of several lines that give a slug, a deploy goes by the last, and a lookup by the
/// first.
pub proof fn of_several_slugs(
    line: &str,
    rest: &str,
    text: &str,
    a: (Option<String>, bool),
    b: (Option<String>, bool),
    r: (Option<String>, bool),
    x: Option<String>,
    y: Option<String>,
    z: Option<String>,
)
    requires
        line@.len() > 0,
        !line@.contains('\n'),
        line@.last() != '\r',
        text@ == line@ + seq!['\n'] + rest@,
        call_ensures(read_manifest, (line,), a),
        call_ensures(read_manifest, (rest,), b),
        call_ensures(read_manifest, (text,), r),
        call_ensures(read_slug, (line,), x),
        call_ensures(read_slug, (rest,), y),
        call_ensures(read_slug, (text,), z),
    ensures
        r.0 is Some == (a.0 is Some || b.0 is Some),
        b.0 is Some ==> r.0->0@ == b.0->0@,
        b.0 is None && a.0 is Some ==> r.0->0@ == a.0->0@,
        z is Some == (x is Some || y is Some),
        x is Some ==> z->0@ == x->0@,
        x is None && y is Some ==> z->0@ == y->0@,
{
    lemma_one_line(line@);
    lemma_line_before(line@, rest@);
    lemma_last_slug(seq![line@], lines_of(rest@));
}

/// Whether an app routes on the client is what the last line on it says: only `true`
/// says so.
pub proof fn the_last_line_on_routing_counts(
    rest: &str,
    line: &str,
    text: &str,
    word: Seq<char>,
    a: (Option<String>, bool),
    r: (Option<String>, bool),
    one: (Option<String>, bool),
)
    requires
        word == "true"@ || word == "false"@,
        line@ == "spa = "@ + word,
        !rest@.contains('\n'),
        rest@.len() > 0 ==> rest@.last() != '\r',
        text@ == rest@ + seq!['\n'] + line@,
        call_ensures(read_manifest, (rest,), a),
        call_ensures(read_manifest, (line,), one),
        call_ensures(read_manifest, (text,), r),
    ensures
        one.1 == (word == "true"@),
        one.0 is None,
        r.1 == (word == "true"@),
{
    reveal_strlit("true");
    reveal_strlit("false");
    reveal_strlit("spa = ");
    reveal_strlit("spa");
    reveal_strlit("slug");
    reveal_strlit(" =");
    let s = line@;
    assert("true"@.len() != "false"@.len());
    assert(!s.contains('\n')) by {
        if s.contains('\n') {
            let k = s.index_of('\n');
            if k >= 6 {
                assert(word[k - 6] == '\n');
            }
        }
    }
    lemma_one_line(s);
    lemma_line_before(rest@, s);
    assert(s.subrange(0, 3) =~= "spa"@);
    assert("spa"@.is_prefix_of(s));
    let tail = s.skip(3);
    assert(tail =~= seq![' ', '=', ' '] + word);
    let set = " ="@;
    assert(set =~= seq![' ', '=']);
    assert(set[0] == ' ' && set[1] == '=');
    reveal_with_fuel(stripped_start, 4);
    assert(tail.skip(1) =~= seq!['=', ' '] + word);
    assert(tail.skip(1).skip(1) =~= seq![' '] + word);
    assert(tail.skip(1).skip(1).skip(1) =~= word);
    assert(set.contains(tail[0]));
    assert(set.contains(tail.skip(1)[0]));
    assert(set.contains(tail.skip(1).skip(1)[0]));
    assert(!set.contains(word[0]));
    assert(stripped_start(tail, set) == word);
    assert(is_tight(word));
    assert(trimmed(word) == word);
    assert(!"slug"@.is_prefix_of(s)) by {
        if "slug"@.is_prefix_of(s) {
            assert(s.subrange(0, 4)[1] == 'l');
        }
    }
    reveal_with_fuel(last_slug, 2);
    reveal_with_fuel(last_spa, 2);
    assert(seq![s].drop_last() =~= Seq::empty());
    let all = seq![rest@] + seq![s];
    assert(all.drop_last() =~= seq![rest@]);
    assert(all.last() == s);
}

/// The upload URL is the first word of a reply that is one.
pub proof fn the_first_upload_url_is_found(
    front: &str,
    word: Seq<char>,
    text: &str,
    before: Option<String>,
    r: Option<String>,
    said: Result<String, String>,
)
    requires
        word.len() > 0,
        forall|i: int| 0 <= i < word.len() ==> '!' <= #[trigger] word[i] && word[i] <= '~',
        word[0] != '\'' && word[0] != '"' && word.last() != '\'' && word.last() != '"',
        text@ == front@ + seq![' '] + word,
        call_ensures(find_upload_url, (front,), before),
        call_ensures(find_upload_url, (text,), r),
        call_ensures(upload_url_in, (text,), said),
    ensures
        before is Some ==> (r matches Some(u) && u@ == before->0@),
        before is None && "http"@.is_prefix_of(word) && holds(word, "/upload/"@) ==> (
        r matches Some(u) && u@ == word),
        before is None && !("http"@.is_prefix_of(word) && holds(word, "/upload/"@)) ==> r is None,
        said is Ok == r is Some,
        said matches Ok(u) ==> u@ == r->0@,
{
    reveal_strlit("'\"");
    let set = "'\""@;
    assert(set =~= seq!['\'', '"']);
    assert(!set.contains(word[0]));
    assert(!set.contains(word.last()));
    assert(stripped(word, set) == word);
    lemma_word(front@ + seq![' '], word);
    assert((front@ + seq![' ']).drop_last() =~= front@);
    assert(words_of(front@ + seq![' ']) == words_of(front@));
    let all = words_of(text@);
    assert(all.drop_last() =~= words_of(front@));
    assert(all.last() == word);
}

/// Digits are bound as the integer they stand for, where 64 bits hold it, with or
/// without a sign; nothing else is one.
pub proof fn digits_are_read_as_their_number(
    s: Seq<char>,
    plain: &str,
    negative: &str,
    positive: &str,
    a: Option<i64>,
    b: Option<i64>,
    c: Option<i64>,
)
    requires
        s.len() > 0,
        plain@ == s,
        negative@ == seq!['-'] + s,
        positive@ == seq!['+'] + s,
        s[0] != '-' && s[0] != '+',
        call_ensures(parse_integer, (plain,), a),
        call_ensures(parse_integer, (negative,), b),
        call_ensures(parse_integer, (positive,), c),
    ensures
        (forall|i: int| 0 <= i < s.len() ==> '0' <= #[trigger] s[i] && s[i] <= '9') ==> {
            &&& a is Some == (number(s) <= i64::MAX)
            &&& a matches Some(n) ==> n == number(s)
            &&& b is Some == (-number(s) >= i64::MIN)
            &&& b matches Some(n) ==> n == -number(s)
            &&& c == a
        },
        !(forall|i: int| 0 <= i < s.len() ==> '0' <= #[trigger] s[i] && s[i] <= '9') ==> a is None
            && b is None && c is None,
{
    assert(negative@.skip(1) =~= s);
    assert(positive@.skip(1) =~= s);
    if forall|i: int| 0 <= i < s.len() ==> '0' <= #[trigger] s[i] && s[i] <= '9' {
        lemma_number(s);
        assert(crate::cli::scalar::all_digits(s));
    } else {
        assert(!crate::cli::scalar::all_digits(s));
    }
}

proof fn lemma_number(s: Seq<char>)
    requires
        forall|i: int| 0 <= i < s.len() ==> '0' <= #[trigger] s[i] && s[i] <= '9',
    ensures
        crate::cli::scalar::digits_value(s) == number(s),
        number(s) >= 0,
    decreases s.len(),
{
    if s.len() > 0 {
        assert(forall|i: int| 0 <= i < s.drop_last().len() ==> s.drop_last()[i] == s[i]);
        assert('0' <= s[s.len() - 1] && s[s.len() - 1] <= '9');
        lemma_number(s.drop_last());
    }
}

/// A number that is written is read as itself.
pub proof fn a_number_is_read_back(n: u64, text: String, given: &str, r: Option<i64>)
    requires
        n <= i64::MAX,
        call_ensures(decimal, (n,), text),
        given@ == text@,
        call_ensures(parse_integer, (given,), r),
    ensures
        r matches Some(m) && m == n,
{
    lemma_digits(n as nat);
    let s = digits(n as nat);
    assert('0' <= s[0] && s[0] <= '9');
    lemma_number(s);
    assert(crate::cli::scalar::all_digits(s));
}

/// A value from the shell is an integer where it is one, else a number, else one of
/// the words, and otherwise text.
pub proof fn what_a_value_is_bound_as(
    raw: &str,
    whole: Option<i64>,
    number: Option<String>,
    r: Scalar,
    text: String,
)
    requires
        call_ensures(parse_integer, (raw,), whole),
        call_ensures(json_scalar, (raw, number), r),
        call_ensures(scalar_text, (&r,), text),
    ensures
        whole matches Some(n) ==> r == Scalar::Integer(n),
        whole is None && number is Some ==> (r matches Scalar::Real(t) && t@ == number->0@) && text@
            == number->0@,
        whole is None && number is None && raw@ == "true"@ ==> r == Scalar::Flag(true) && text@
            == "true"@,
        whole is None && number is None && raw@ == "false"@ ==> r == Scalar::Flag(false) && text@
            == "false"@,
        whole is None && number is None && raw@ == "null"@ ==> r is Null && text@ == "null"@,
        whole is None && number is None && raw@ != "true"@ && raw@ != "false"@ && raw@ != "null"@
            ==> (r matches Scalar::Text(t) && t@ == raw@) && text@ == crate::encode::json_string(
            raw@,
        ),
{
    reveal_strlit("true");
    reveal_strlit("false");
    reveal_strlit("null");
    assert("true"@[0] == 't' && "null"@[0] == 'n');
    assert("false"@.len() == 5 && "true"@.len() == 4 && "null"@.len() == 4);
}

/// An integer is written with its sign and its digits.
pub proof fn an_integer_is_written_with_its_sign(i: i64, r: String)
    requires
        call_ensures(scalar_text, (&Scalar::Integer(i),), r),
    ensures
        i >= 0 ==> number(r@) == i && r@[0] != '-',
        i < 0 ==> r@.len() > 1 && r@[0] == '-' && number(r@.skip(1)) == -i,
{
    reveal_strlit("-");
    if i >= 0 {
        lemma_digits(i as nat);
        assert('0' <= digits(i as nat)[0]);
    } else {
        let n = (-(i as int)) as nat;
        lemma_digits(n);
        assert(r@.skip(1) =~= digits(n));
    }
}

/// A session is opened where the server takes the token and names one.
pub proof fn a_session_is_what_the_server_names(
    url: &str,
    token: &str,
    opened: Opened,
    at: String,
    r: Result<Mcp, String>,
)
    requires
        call_ensures(endpoint, (url,), at),
        call_ensures(Mcp::connect, (url, token, opened), r),
    ensures
        r is Ok == (200 <= opened.status && opened.status < 300 && opened.session is Some),
        r matches Ok(mcp) ==> mcp.url@ == at@ && mcp.token@ == token@ && Some(mcp.session)
            == opened.session,
        opened.status == 401 ==> r->Err_0@ == at@
            + " rejected the token (401). Check TOOLSITE_TOKEN."@,
        200 <= opened.status && opened.status < 300 && opened.session is None ==> r->Err_0@
            == "server did not issue a session id"@,
        opened.status != 401 && !(200 <= opened.status && opened.status < 300) ==> r->Err_0@ == at@
            + " answered "@ + opened.reason@,
{
}

/// A call is what the tool answered; an error of the protocol, no result at all, and
/// a failure that the tool reports are errors.
pub proof fn a_call_is_what_the_tool_answered(
    mcp: Mcp,
    tool: &str,
    body: &str,
    p: Payload,
    r: Result<String, String>,
    none: Result<String, String>,
)
    requires
        call_ensures(Mcp::call, (&mcp, tool, body, Some(p)), r),
        call_ensures(Mcp::call, (&mcp, tool, body, None), none),
    ensures
        none is Err,
        r is Ok == (p.error is None && p.result && !p.is_error),
        r matches Ok(text) ==> p.text is Some ==> text@ == p.text->0@,
        p.error is None && p.result && p.is_error && p.text is Some ==> r->Err_0@ == p.text->0@,
        none->Err_0@ == "could not parse a response from "@ + tool@ + ": "@ + body@,
        p.error matches Some(error) ==> r->Err_0@ == tool@ + " failed: "@ + error@,
        p.error is None && !p.result ==> r->Err_0@ == tool@ + " returned no result: "@ + body@,
{
}

/// An answer is the first JSON that a stream carries behind `data: `, and where it
/// carries none the whole body.
pub proof fn the_first_json_is_the_answer(
    data: Seq<char>,
    line: Seq<char>,
    rest: &str,
    body: &str,
    below: Option<String>,
    r: Option<String>,
    all: Vec<String>,
    last: int,
)
    requires
        !line.contains('\n'),
        line.len() > 0 ==> line.last() != '\r',
        body@ == line + seq!['\n'] + rest@,
        call_ensures(parse_sse, (rest,), below),
        call_ensures(parse_sse, (body,), r),
        call_ensures(candidates, (body,), all),
    ensures
        line == "data: "@ + data && is_json(data) ==> (r matches Some(x) && x@ == data),
        all.len() > 0 && all@[all.len() - 1]@ == body@,
        r matches Some(x) ==> is_json(x@),
        !"data: "@.is_prefix_of(line) && all.len() == 1 ==> r is Some == is_json(body@),
{
    lemma_line_before(line, rest@);
    let ls = lines_of(rest@);
    lemma_carried(seq![line], ls);
    let cs = texts(all@);
    assert(cs.len() == all.len());
    assert(cs[all.len() - 1] == all@[all.len() - 1]@);
    reveal_with_fuel(carried, 2);
    assert(seq![line].drop_last() =~= Seq::empty());
    if line == "data: "@ + data {
        let n = "data: "@.len() as int;
        assert(line.subrange(0, n) =~= "data: "@);
        assert("data: "@.is_prefix_of(line));
        assert(line.skip(n) =~= data);
        if is_json(data) {
            assert(cs[0] == data);
            lemma_first_json(cs, 0);
        }
    }
    lemma_json_found(cs);
    if all.len() == 1 {
        reveal_with_fuel(first_json, 2);
        assert(cs.drop_last() =~= Seq::empty());
    }
}

proof fn lemma_carried(a: Seq<Seq<char>>, b: Seq<Seq<char>>)
    ensures
        carried(a + b) == carried(a) + carried(b),
    decreases b.len(),
{
    if b.len() == 0 {
        assert(a + b =~= a);
        assert(carried(a) + carried(b) =~= carried(a));
    } else {
        assert((a + b).drop_last() =~= a + b.drop_last());
        assert((a + b).last() == b.last());
        lemma_carried(a, b.drop_last());
        assert(carried(a + b) =~= carried(a) + carried(b));
    }
}

proof fn lemma_first_json(cs: Seq<Seq<char>>, i: int)
    requires
        0 <= i < cs.len(),
        is_json(cs[i]),
        forall|j: int| 0 <= j < i ==> !is_json(#[trigger] cs[j]),
    ensures
        first_json(cs) == Some(cs[i]),
    decreases cs.len(),
{
    let less = cs.drop_last();
    assert(forall|j: int| 0 <= j < less.len() ==> less[j] == cs[j]);
    if i < less.len() {
        lemma_first_json(less, i);
    } else {
        lemma_no_json(less);
    }
}

proof fn lemma_no_json(cs: Seq<Seq<char>>)
    requires
        forall|j: int| 0 <= j < cs.len() ==> !is_json(#[trigger] cs[j]),
    ensures
        first_json(cs) is None,
    decreases cs.len(),
{
    if cs.len() > 0 {
        let less = cs.drop_last();
        assert(forall|j: int| 0 <= j < less.len() ==> less[j] == cs[j]);
        assert(!is_json(cs[cs.len() - 1]));
        lemma_no_json(less);
    }
}

proof fn lemma_json_found(cs: Seq<Seq<char>>)
    ensures
        first_json(cs) matches Some(x) ==> is_json(x),
    decreases cs.len(),
{
    if cs.len() > 0 {
        lemma_json_found(cs.drop_last());
    }
}

/// A page that is hidden or not listed is shown as such, and an ordinary one is not;
/// its slug comes first and its title last.
pub proof fn a_page_is_shown_with_what_sets_it_apart(page: PageLine, r: String)
    requires
        call_ensures(page_row, (&page,), r),
        page.title is Some,
        page.slug is Some,
    ensures
        page.slug->0@.is_prefix_of(r@),
        page.hidden == Some(true) && page.listed == Some(false) ==> (page.title->0@
            + "  [hidden, unlisted]"@).is_suffix_of(r@),
        page.hidden == Some(true) && page.listed != Some(false) ==> (page.title->0@
            + "  [hidden]"@).is_suffix_of(r@),
        page.hidden != Some(true) && page.listed == Some(false) ==> (page.title->0@
            + "  [unlisted]"@).is_suffix_of(r@),
        page.hidden != Some(true) && page.listed != Some(false) ==> page.title->0@.is_suffix_of(r@),
{
    let slug = page.slug->0@;
    let whole = r@;
    assert(whole.subrange(0, slug.len() as int) =~= slug);
    let title = page.title->0@;
    reveal_strlit("");
    let flags = crate::cli::print::page_flags(page);
    let tail = title + flags;
    assert(whole.subrange(whole.len() - tail.len(), whole.len() as int) =~= tail);
    if flags.len() == 0 {
        assert(tail =~= title);
    }
}

/// Pages are shown one on each line, in their order; a cell without a value is shown
/// as `NULL`.
pub proof fn pages_are_shown_in_their_order(
    pages: Vec<PageLine>,
    i: int,
    line: String,
    r: Vec<String>,
    cell: Value,
    shown: String,
)
    requires
        0 <= i < pages.len(),
        call_ensures(page_row, (&pages@[i],), line),
        call_ensures(print_pages, (&pages,), r),
        call_ensures(render_cell, (&cell,), shown),
    ensures
        r.len() == pages.len(),
        r@[i]@ == line@,
        cell is Null ==> shown@ == "NULL"@,
        cell matches Value::Text(t) ==> shown@ == t@,
        cell matches Value::Other(t) ==> shown@ == t@,
{
    let all = texts(r@);
    assert(all.len() == r.len());
    assert(all[i] == r@[i]@);
}

/// The outcome of a statement is shown with its columns first, then row by row; that
/// there was more is said, and how many rows changed where none is shown.
pub proof fn an_outcome_is_shown_row_by_row(
    o: Rows,
    head: String,
    count: String,
    i: int,
    r: Vec<String>,
)
    requires
        call_ensures(join, (&o.columns, "\t"), head),
        call_ensures(decimal, (o.rows_affected,), count),
        call_ensures(print_rows, (&o,), r),
    ensures
        o.columns.len() > 0 ==> r.len() > 0 && r@[0]@ == head@,
        o.rows.len() == 0 ==> r.len() > 0 && r@[r.len() - 1]@ == count@ + " row(s) affected"@,
        r.len() == (if o.columns.len() > 0 {
            1int
        } else {
            0
        }) + o.rows.len() + (if o.truncated {
            1int
        } else {
            0
        }) + (if o.rows.len() == 0 {
            1int
        } else {
            0
        }),
        o.truncated && o.rows.len() > 0 ==> r@[r.len() - 1]@
            == "… truncated at the server's row cap"@,
{
    let all = texts(r@);
    assert(all.len() == r.len());
    if all.len() > 0 {
        assert(all[0] == r@[0]@);
        assert(all[all.len() - 1] == r@[r.len() - 1]@);
    }
}

/// A project is started where nothing of its name is there: with its manifest first,
/// and a page, unless it is built.
pub proof fn a_project_starts_with_its_manifest(
    name: &str,
    taken: bool,
    spa: bool,
    handler: bool,
    react: bool,
    templates: Templates,
    text: String,
    r: Result<NewProject, String>,
)
    requires
        call_ensures(manifest, (name, spa || react, handler), text),
        call_ensures(init, (name, taken, spa, handler, react, &templates), r),
    ensures
        r is Ok == !taken,
        r matches Ok(p) ==> p.files.len() > 2 && p.files@[0].0@ == "toolsite.toml"@
            && p.files@[0].1@ == text@ && (!react ==> p.files@[1].0@ == "dist/index.html"@)
            && p.files.len() == (if react {
            10int
        } else {
            3
        }) + (if handler {
            4int
        } else {
            0
        }),
        r matches Ok(p) ==> handler ==> p.files@[p.files.len() - 1].0@
            == "migrations/001_initial.sql"@,
{
    if let Ok(p) = r {
        let all = pairs(p.files@);
        assert(all.len() == p.files.len());
        assert(all[0] == (p.files@[0].0@, p.files@[0].1@));
        assert(all[1] == (p.files@[1].0@, p.files@[1].1@));
        let n = p.files.len() - 1;
        assert(all[n] == (p.files@[n].0@, p.files@[n].1@));
    }
}

} // verus!
