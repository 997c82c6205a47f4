//! Uploads: what a ticket may write, what is answered, and what the same
//! ticket may read back.
use crate::config::Config;
use crate::content::bundle::{labels, Unpacked};
use crate::content::slug::{is_slug, valid_slug};
use crate::content::store::{
    beside, file_beside, inside, join_path, page_url, page_url_of, PageMeta,
};
use crate::encode::{form_pairs, names, plain_names, read_form};
use crate::reply::{plain, typed, with_header, Answer, Reply};
use crate::table::Table;
use crate::text::{
    decimal, digits, join, joined, pairs, same, split, split_on, strip_suffix, strip_suffixes,
    texts, trim, trimmed, utf8_text, without_suffixes,
};
use vstd::prelude::*;
use vstd::utf8::{decode_utf8, valid_utf8};

verus! {

/// A short-lived, single-slug write capability handed to an agent so it can
/// `curl -T file.html <url>` instead of pasting page HTML through a tool call.
pub struct UploadTicket {
    pub slug: String,
    /// When it stops working, in milliseconds of the server's clock.
    pub expires_at: u64,
}

/// How long a ticket works, in milliseconds.
pub const UPLOAD_TTL: u64 = 900_000;

/// The most an upload may hold.
pub const MAX_UPLOAD_BYTES: usize = 67_108_864;

/// The most an icon may hold.
pub const MAX_ICON_BYTES: usize = 1_048_576;

/// The URL that a ticket is used at.
pub open spec fn upload_url_of(config: Config, ticket: Seq<char>) -> Seq<char> {
    config.public_base() + "/upload/"@ + ticket
}

/// The URL that a ticket is used at.
pub fn upload_url(config: &Config, ticket: &str) -> (r: String)
    ensures
        r@ == upload_url_of(*config, ticket@),
{
    let base: String = match &config.base_url {
        Some(base) => base.clone(),
        None => config.local_base.clone(),
    };
    base.concat("/upload/").concat(ticket)
}

/// Flags on an upload URL. Presence is what counts; any value works.
pub struct UploadQuery {
    /// The body is the page's icon.
    pub icon: bool,
    /// The body is a gzipped tar of a built site.
    pub bundle: bool,
    /// That site is client-routed.
    pub spa: bool,
    /// The body is a wasm component.
    pub handler: bool,
    /// The body is the project the bundle was built from, kept private.
    pub source: bool,
    /// The body is `toolsite.toml`: what the app needs, rather than a list of
    /// commands.
    pub manifest: bool,
    /// The body is a gzipped tar of migrations/*.sql: the app's own schema.
    pub migrations: bool,
}

/// Whether a flag is one that an upload URL takes.
pub open spec fn is_flag(s: Seq<char>) -> bool {
    s == "icon"@ || s == "bundle"@ || s == "spa"@ || s == "handler"@ || s == "source"@ || s
        == "manifest"@ || s == "migrations"@
}

/// The flags in a query: the names in it, decoded.
pub open spec fn flags_in(query: Seq<char>) -> Seq<Seq<char>> {
    names(form_pairs(query))
}

/// The flags in a query, whatever they are set to.
pub fn query_flags(query: &str) -> (r: Vec<String>)
    ensures
        texts(r@) == flags_in(query@),
        !query@.contains('%') && !query@.contains('+') ==> texts(r@) == plain_names(query@),
{
    let form = read_form(query);
    let mut r: Vec<String> = Vec::new();
    let mut i: usize = 0;
    assert(texts(r@) =~= flags_in(query@).take(0));
    while i < form.len()
        invariant
            i <= form.len(),
            pairs(form@) == form_pairs(query@),
            texts(r@) == flags_in(query@).take(i as int),
        decreases form.len() - i,
    {
        let ghost before = r@;
        r.push(form[i].0.clone());
        proof {
            assert(pairs(form@)[i as int].0 == form@[i as int].0@);
            assert(texts(r@) =~= texts(before).push(flags_in(query@)[i as int]));
            assert(texts(r@) =~= flags_in(query@).take(i + 1));
        }
        i += 1;
    }
    assert(texts(r@) =~= flags_in(query@));
    r
}

/// Whether a query says that exactly these flags are there.
pub open spec fn query_of(flags: Seq<Seq<char>>, q: UploadQuery) -> bool {
    &&& q.icon == flags.contains("icon"@)
    &&& q.bundle == flags.contains("bundle"@)
    &&& q.spa == flags.contains("spa"@)
    &&& q.handler == flags.contains("handler"@)
    &&& q.source == flags.contains("source"@)
    &&& q.manifest == flags.contains("manifest"@)
    &&& q.migrations == flags.contains("migrations"@)
}

/// Whether a list of names holds a name.
fn lists(names: &Vec<String>, name: &str) -> (r: bool)
    ensures
        r == texts(names@).contains(name@),
{
    let mut i: usize = 0;
    while i < names.len()
        invariant
            i <= names.len(),
            forall|j: int| 0 <= j < i ==> #[trigger] texts(names@)[j] != name@,
        decreases names.len() - i,
    {
        if same(names[i].as_str(), name) {
            assert(texts(names@)[i as int] == name@);
            return true;
        }
        i += 1;
    }
    false
}

/// What is wrong with a flag, if anything: it is none, or it was given before.
pub open spec fn flag_fault(flags: Seq<Seq<char>>, i: int) -> Option<Seq<char>> {
    if !is_flag(flags[i]) {
        Some("unknown upload flag: "@ + flags[i] + "\n"@)
    } else if flags.take(i).contains(flags[i]) {
        Some("Failed to deserialize query string: duplicate field `"@ + flags[i] + "`"@)
    } else {
        None
    }
}

/// Whether a flag stands before a place.
fn given_before(flags: &Vec<String>, i: usize) -> (r: bool)
    requires
        i < flags.len(),
    ensures
        r == texts(flags@).take(i as int).contains(texts(flags@)[i as int]),
{
    let ghost before = texts(flags@).take(i as int);
    let mut j: usize = 0;
    while j < i
        invariant
            j <= i < flags.len(),
            before == texts(flags@).take(i as int),
            forall|k: int| 0 <= k < j ==> #[trigger] before[k] != texts(flags@)[i as int],
        decreases i - j,
    {
        if same(flags[j].as_str(), flags[i].as_str()) {
            assert(before[j as int] == texts(flags@)[i as int]);
            return true;
        }
        j += 1;
    }
    false
}

/// Reads the flags of an upload URL. A flag that is none is refused rather than
/// guessed at, and so is one that is given twice.
pub fn upload_query(flags: &Vec<String>) -> (r: Result<UploadQuery, Reply>)
    ensures
        match r {
            Ok(q) => query_of(texts(flags@), q) && forall|i: int|
                0 <= i < flags.len() ==> #[trigger] flag_fault(texts(flags@), i) is None,
            Err(reply) => exists|i: int|
                #![trigger flag_fault(texts(flags@), i)]
                0 <= i < flags.len() && flag_fault(texts(flags@), i) is Some && (forall|j: int|
                    0 <= j < i ==> #[trigger] flag_fault(texts(flags@), j) is None) && reply@
                    == plain(400, flag_fault(texts(flags@), i)->0),
        },
{
    let ghost all = texts(flags@);
    let mut i: usize = 0;
    while i < flags.len()
        invariant
            i <= flags.len(),
            all == texts(flags@),
            forall|j: int| 0 <= j < i ==> #[trigger] flag_fault(all, j) is None,
        decreases flags.len() - i,
    {
        let f = flags[i].as_str();
        assert(f@ == all[i as int]);
        if !(same(f, "icon") || same(f, "bundle") || same(f, "spa") || same(f, "handler") || same(
            f,
            "source",
        ) || same(f, "manifest") || same(f, "migrations")) {
            assert(flag_fault(all, i as int) is Some);
            return Err(
                Reply::plain(
                    400,
                    "unknown upload flag: ".to_owned().concat(f).concat("\n"),
                ),
            );
        }
        if given_before(flags, i) {
            assert(flag_fault(all, i as int) is Some);
            return Err(
                Reply::plain(
                    400,
                    "Failed to deserialize query string: duplicate field `".to_owned().concat(
                        f,
                    ).concat("`"),
                ),
            );
        }
        i += 1;
    }
    Ok(
        UploadQuery {
            icon: lists(flags, "icon"),
            bundle: lists(flags, "bundle"),
            spa: lists(flags, "spa"),
            handler: lists(flags, "handler"),
            source: lists(flags, "source"),
            manifest: lists(flags, "manifest"),
            migrations: lists(flags, "migrations"),
        },
    )
}

/// What an upload is.
#[derive(Clone, Copy, PartialEq, Eq, Structural)]
pub enum UploadKind {
    Page,
    Icon,
    Bundle { spa: bool },
    Handler,
    Source,
    Manifest,
    Migrations,
}

/// What an upload is, where several flags are given: the first of this list.
pub open spec fn kind_of(q: UploadQuery) -> UploadKind {
    if q.migrations {
        UploadKind::Migrations
    } else if q.manifest {
        UploadKind::Manifest
    } else if q.source {
        UploadKind::Source
    } else if q.handler {
        UploadKind::Handler
    } else if q.bundle {
        UploadKind::Bundle { spa: q.spa }
    } else if q.icon {
        UploadKind::Icon
    } else {
        UploadKind::Page
    }
}

/// What an upload is.
pub fn upload_kind(query: &UploadQuery) -> (r: UploadKind)
    ensures
        r == kind_of(*query),
{
    if query.migrations {
        UploadKind::Migrations
    } else if query.manifest {
        UploadKind::Manifest
    } else if query.source {
        UploadKind::Source
    } else if query.handler {
        UploadKind::Handler
    } else if query.bundle {
        UploadKind::Bundle { spa: query.spa }
    } else if query.icon {
        UploadKind::Icon
    } else {
        UploadKind::Page
    }
}

/// The tickets that still work.
pub open spec fn live(
    uploads: Map<Seq<char>, UploadTicket>,
    now: u64,
) -> Map<Seq<char>, UploadTicket> {
    uploads.restrict(uploads.dom().filter(|k: Seq<char>| uploads[k].expires_at > now))
}

/// Forgets the tickets that no longer work.
pub fn sweep(uploads: &mut Table<UploadTicket>, now: u64)
    ensures
        final(uploads)@ == live(old(uploads)@, now),
{
    let names = uploads.names();
    let ghost all = uploads@;
    let mut i: usize = 0;
    while i < names.len()
        invariant
            i <= names.len(),
            all == old(uploads)@,
            forall|k: Seq<char>| texts(names@).contains(k) == #[trigger] all.contains_key(k),
            forall|k: Seq<char>| #[trigger]
                uploads@.contains_key(k) == (all.contains_key(k) && (all[k].expires_at > now
                    || !texts(names@).take(i as int).contains(k))),
            forall|k: Seq<char>| #[trigger] uploads@.contains_key(k) ==> uploads@[k] == all[k],
        decreases names.len() - i,
    {
        let ghost before = uploads@;
        let ghost name = names@[i as int]@;
        let dead = match uploads.get(names[i].as_str()) {
            Some(t) => t.expires_at <= now,
            None => false,
        };
        if dead {
            uploads.remove(names[i].as_str());
        }
        proof {
            let seen = texts(names@).take(i as int);
            let more = texts(names@).take(i + 1);
            assert(more =~= seen.push(name));
            assert forall|k: Seq<char>| more.contains(k) == (seen.contains(k) || k == name) by {
                if seen.contains(k) {
                    let j = seen.index_of(k);
                    assert(more[j] == k);
                }
                if k == name {
                    assert(more[i as int] == k);
                }
                if more.contains(k) {
                    let j = more.index_of(k);
                    if j < i {
                        assert(seen[j] == k);
                    }
                }
            }
        }
        i += 1;
    }
    proof {
        assert(texts(names@).take(names@.len() as int) =~= texts(names@));
        assert(uploads@ =~= live(all, now));
    }
}

/// The slug that a live ticket writes to.
pub open spec fn slug_of_ticket(
    uploads: Map<Seq<char>, UploadTicket>,
    now: u64,
    ticket: Seq<char>,
) -> Option<Seq<char>> {
    if uploads.contains_key(ticket) && uploads[ticket].expires_at > now {
        Some(uploads[ticket].slug@)
    } else {
        None
    }
}

/// The slug that a live ticket writes to, forgetting expired ones on the way.
pub fn ticket_slug(uploads: &mut Table<UploadTicket>, now: u64, ticket: &str) -> (r: Option<
    String,
>)
    ensures
        final(uploads)@ == live(old(uploads)@, now),
        match r {
            Some(s) => slug_of_ticket(old(uploads)@, now, ticket@) == Some(s@),
            None => slug_of_ticket(old(uploads)@, now, ticket@) is None,
        },
{
    sweep(uploads, now);
    match uploads.get(ticket) {
        Some(t) => Some(t.slug.clone()),
        None => None,
    }
}

/// What there is to do for an upload.
pub enum UploadStep {
    /// Answer, and do nothing.
    Answer(Reply),
    /// Store and apply the app's schema.
    Migrations { app: String },
    /// Apply the app's manifest.
    Manifest { app: String, text: String },
    /// Look whether the body is a handler.
    Handler { app: String },
    /// Unpack the body into `dest`.
    Bundle { slug: String, dest: String, spa: bool },
    /// Write the body to `path`, then answer `done`.
    Write { path: String, done: Reply },
}

/// A step over mathematical values.
pub enum Step {
    Answer(Answer),
    Migrations { app: Seq<char> },
    Manifest { app: Seq<char>, text: Seq<char> },
    Handler { app: Seq<char> },
    Bundle { slug: Seq<char>, dest: Seq<char>, spa: bool },
    Write { path: Seq<char>, done: Answer },
}

impl View for UploadStep {
    type V = Step;

    open spec fn view(&self) -> Step {
        match self {
            UploadStep::Answer(r) => Step::Answer(r@),
            UploadStep::Migrations { app } => Step::Migrations { app: app@ },
            UploadStep::Manifest { app, text } => Step::Manifest { app: app@, text: text@ },
            UploadStep::Handler { app } => Step::Handler { app: app@ },
            UploadStep::Bundle { slug, dest, spa } => Step::Bundle {
                slug: slug@,
                dest: dest@,
                spa: *spa,
            },
            UploadStep::Write { path, done } => Step::Write { path: path@, done: done@ },
        }
    }
}

/// The answer to a ticket that does not work.
pub open spec fn no_ticket() -> Answer {
    plain(401, "upload ticket unknown or expired; call create_upload again\n"@)
}

/// The slug without the `/index` of an app's index page: that page is reachable
/// at the app root, which is the URL worth handing back.
pub open spec fn public_slug(slug: Seq<char>) -> Seq<char> {
    if "/index"@.is_suffix_of(slug) {
        slug.take(slug.len() - "/index"@.len())
    } else {
        slug
    }
}

/// The app that a slug belongs to.
pub open spec fn app_of(slug: Seq<char>) -> Seq<char> {
    split(slug, '/')[0]
}

/// The slug that is written: the ticket's own, or a page below it.
pub open spec fn written_slug(own: Seq<char>, sub: Option<Seq<char>>) -> Seq<char> {
    match sub {
        Some(sub) => own + "/"@ + without_suffixes(sub, ".html"@),
        None => own,
    }
}

/// What there is to do for an upload of a slug.
pub open spec fn step_for(config: Config, slug: Seq<char>, kind: UploadKind, body: Seq<u8>) -> Step {
    if !is_slug(slug) {
        Step::Answer(
            plain(400, "page name must be path segments of letters, numbers, '-' or '_'\n"@),
        )
    } else if body.len() == 0 {
        Step::Answer(plain(400, "body is empty\n"@))
    } else {
        match kind {
            UploadKind::Migrations => Step::Migrations { app: app_of(slug) },
            UploadKind::Manifest => if valid_utf8(body) {
                Step::Manifest { app: app_of(slug), text: decode_utf8(body) }
            } else {
                Step::Answer(plain(400, "toolsite.toml must be UTF-8\n"@))
            },
            UploadKind::Source => if body.len() > MAX_UPLOAD_BYTES {
                Step::Answer(plain(413, "source archive too large\n"@))
            } else {
                Step::Write {
                    path: beside(config, app_of(slug), ".source"@),
                    done: plain(
                        200,
                        "stored "@ + digits(body.len()) + " bytes of source for "@ + app_of(slug)
                            + "; fetch it back with GET on this same URL with ?source\n"@,
                    ),
                }
            },
            UploadKind::Handler => Step::Handler { app: app_of(slug) },
            UploadKind::Bundle { spa } => Step::Bundle {
                slug,
                dest: inside(config.data_dir@, slug),
                spa,
            },
            UploadKind::Icon => if body.len() > MAX_ICON_BYTES {
                Step::Answer(plain(413, "icon must be under 1024 KB\n"@))
            } else {
                Step::Write {
                    path: beside(config, slug, ".icon"@),
                    done: plain(
                        200,
                        "icon set for "@ + page_url_of(config, public_slug(slug)) + "\n"@,
                    ),
                }
            },
            UploadKind::Page => if !valid_utf8(body) {
                Step::Answer(plain(400, "body must be UTF-8 HTML\n"@))
            } else if trimmed(decode_utf8(body)).len() == 0 {
                Step::Answer(plain(400, "body is empty\n"@))
            } else {
                Step::Write {
                    path: beside(config, slug, ".html"@),
                    done: plain(200, page_url_of(config, public_slug(slug)) + "\n"@),
                }
            },
        }
    }
}

/// What there is to do for an upload.
pub open spec fn upload_step(
    config: Config,
    now: u64,
    ticket: Seq<char>,
    sub: Option<Seq<char>>,
    kind: UploadKind,
    body: Seq<u8>,
) -> Step {
    match slug_of_ticket(config.uploads@, now, ticket) {
        None => Step::Answer(no_ticket()),
        Some(own) => step_for(config, written_slug(own, sub), kind, body),
    }
}

/// An optional text.
pub open spec fn opt_view(s: Option<&str>) -> Option<Seq<char>> {
    match s {
        Some(s) => Some(s@),
        None => None,
    }
}

/// The slug without the `/index` of an app's index page.
fn public_of(slug: &str) -> (r: String)
    ensures
        r@ == public_slug(slug@),
{
    match strip_suffix(slug, "/index") {
        Some(s) => s,
        None => slug.to_owned(),
    }
}

/// The app that a slug belongs to.
pub fn app_name(slug: &str) -> (r: String)
    ensures
        r@ == app_of(slug@),
{
    let parts = split_on(slug, '/');
    proof {
        assert(texts(parts@)[0] == parts@[0]@);
    }
    parts[0].clone()
}

/// What there is to do for an upload of a slug.
fn step_of(config: &Config, slug: String, kind: UploadKind, body: &[u8]) -> (r: UploadStep)
    ensures
        r@ == step_for(*config, slug@, kind, body@),
{
    if !valid_slug(slug.as_str()) {
        return UploadStep::Answer(
            Reply::says(400, "page name must be path segments of letters, numbers, '-' or '_'\n"),
        );
    }
    if body.len() == 0 {
        return UploadStep::Answer(Reply::says(400, "body is empty\n"));
    }
    let app = app_name(slug.as_str());
    match kind {
        // The app's schema, applied before anything can ask for a table.
        UploadKind::Migrations => UploadStep::Migrations { app },
        UploadKind::Manifest => match utf8_text(body) {
            Some(text) => UploadStep::Manifest { app, text },
            None => UploadStep::Answer(Reply::says(400, "toolsite.toml must be UTF-8\n")),
        },
        // The project, not the output. Stored whole and never served: what a
        // visitor may see is exactly what the bundle contained, and a later
        // session needs the sources that produced it.
        UploadKind::Source => if body.len() > MAX_UPLOAD_BYTES {
            UploadStep::Answer(Reply::says(413, "source archive too large\n"))
        } else {
            let done = "stored ".to_owned().concat(decimal(body.len() as u64).as_str()).concat(
                " bytes of source for ",
            ).concat(app.as_str()).concat(
                "; fetch it back with GET on this same URL with ?source\n",
            );
            UploadStep::Write {
                path: file_beside(config, app.as_str(), ".source"),
                done: Reply::plain(200, done),
            }
        },
        UploadKind::Handler => UploadStep::Handler { app },
        UploadKind::Bundle { spa } => {
            let dest = join_path(config.data_dir.as_str(), slug.as_str());
            UploadStep::Bundle { slug, dest, spa }
        },
        UploadKind::Icon => if body.len() > MAX_ICON_BYTES {
            UploadStep::Answer(Reply::says(413, "icon must be under 1024 KB\n"))
        } else {
            let url = page_url(config, public_of(slug.as_str()).as_str());
            UploadStep::Write {
                path: file_beside(config, slug.as_str(), ".icon"),
                done: Reply::plain(
                    200,
                    "icon set for ".to_owned().concat(url.as_str()).concat("\n"),
                ),
            }
        },
        UploadKind::Page => match utf8_text(body) {
            None => UploadStep::Answer(Reply::says(400, "body must be UTF-8 HTML\n")),
            Some(text) => if trim(text.as_str()).as_str().is_empty() {
                UploadStep::Answer(Reply::says(400, "body is empty\n"))
            } else {
                let url = page_url(config, public_of(slug.as_str()).as_str());
                UploadStep::Write {
                    path: file_beside(config, slug.as_str(), ".html"),
                    done: Reply::plain(200, url.concat("\n")),
                }
            },
        },
    }
}

/// Ticket-authenticated write. The ticket itself is the credential, so an agent
/// can upload a file without ever being handed the server's real token.
pub fn store_upload(
    config: &mut Config,
    now: u64,
    ticket: &str,
    sub: Option<&str>,
    kind: UploadKind,
    body: &[u8],
) -> (r: UploadStep)
    ensures
        r@ == upload_step(*old(config), now, ticket@, opt_view(sub), kind, body@),
        final(config).uploads@ == live(old(config).uploads@, now),
        final(config).data_dir == old(config).data_dir,
        final(config).base_url == old(config).base_url,
        final(config).local_base == old(config).local_base,
        final(config).valid_tokens == old(config).valid_tokens,
        final(config).oauth == old(config).oauth,
        final(config).databases == old(config).databases,
{
    let own = match ticket_slug(&mut config.uploads, now, ticket) {
        Some(own) => own,
        None => {
            return UploadStep::Answer(
                Reply::says(
                    401,
                    "upload ticket unknown or expired; call create_upload again\n",
                ),
            );
        },
    };
    let slug: String = match sub {
        Some(sub) => own.concat("/").concat(strip_suffixes(sub, ".html").as_str()),
        None => own,
    };
    step_of(config, slug, kind, body)
}

/// The answer once a write was tried.
pub fn written(ok: bool, done: Reply) -> (r: Reply)
    ensures
        r@ == if ok {
            done@
        } else {
            plain(500, "write failed\n"@)
        },
{
    if ok {
        done
    } else {
        Reply::says(500, "write failed\n")
    }
}

/// What there is to do once a handler was looked at: one that is none is
/// refused here, with the reason.
pub fn handler_checked(config: &Config, app: &str, verdict: Result<(), String>) -> (r: UploadStep)
    ensures
        r@ == match verdict {
            Ok(_) => Step::Write {
                path: inside(config.data_dir@, app@ + "/handler.wasm"@),
                done: plain(200, "handler live at "@ + page_url_of(*config, app@) + "/api/\n"@),
            },
            Err(why) => Step::Answer(
                plain(400, "not a valid handler component: "@ + why@ + "\n"@),
            ),
        },
{
    match verdict {
        Err(why) => UploadStep::Answer(
            Reply::plain(
                400,
                "not a valid handler component: ".to_owned().concat(why.as_str()).concat("\n"),
            ),
        ),
        Ok(_) => UploadStep::Write {
            path: file_beside(config, app, "/handler.wasm"),
            done: Reply::plain(
                200,
                "handler live at ".to_owned().concat(page_url(config, app).as_str()).concat(
                    "/api/\n",
                ),
            ),
        },
    }
}

/// Whether an archive of migrations is worth storing: it could be read, and
/// there is one in it.
pub fn migrations_read(count: &Result<u64, String>) -> (r: Option<Reply>)
    ensures
        match (*count, r) {
            (Err(m), Some(reply)) => reply@ == plain(400, m@ + "\n"@),
            (Ok(n), Some(reply)) => n == 0 && reply@ == plain(
                400,
                "no .sql files in that archive\n"@,
            ),
            (Ok(n), None) => n > 0,
            (Err(_), None) => false,
        },
{
    match count {
        Err(m) => Some(Reply::plain(400, m.clone().concat("\n"))),
        Ok(n) => if *n == 0 {
            Some(Reply::says(400, "no .sql files in that archive\n"))
        } else {
            None
        },
    }
}

/// How applying migrations ended.
pub enum Migrated {
    /// The version reached, and how many ran.
    Done { version: u64, ran: u64 },
    /// Refused, with the reason.
    Refused(String),
    /// The work itself broke off.
    Broken,
}

/// The answer to an upload of migrations.
pub open spec fn migrated_answer(app: Seq<char>, count: u64, outcome: Migrated) -> Answer {
    match outcome {
        Migrated::Done { version, ran } => plain(
            200,
            app + ": "@ + digits(count as nat) + " migration(s) stored, "@ + digits(ran as nat)
                + " applied, now at version "@ + digits(version as nat) + "\n"@,
        ),
        Migrated::Refused(m) => plain(400, m@ + "\n"@),
        Migrated::Broken => plain(500, "migration failed\n"@),
    }
}

/// The answer to an upload of migrations.
pub fn migrated(app: &str, count: u64, outcome: Migrated) -> (r: Reply)
    ensures
        r@ == migrated_answer(app@, count, outcome),
{
    match outcome {
        Migrated::Done { version, ran } => Reply::plain(
            200,
            app.to_owned().concat(": ").concat(decimal(count).as_str()).concat(
                " migration(s) stored, ",
            ).concat(decimal(ran).as_str()).concat(" applied, now at version ").concat(
                decimal(version).as_str(),
            ).concat("\n"),
        ),
        Migrated::Refused(m) => Reply::plain(400, m.concat("\n")),
        Migrated::Broken => Reply::says(500, "migration failed\n"),
    }
}

/// The answer to an upload of a manifest.
pub open spec fn manifest_answer(app: Seq<char>, outcome: Result<Vec<String>, String>) -> Answer {
    match outcome {
        Ok(changed) => if changed.len() == 0 {
            plain(200, app + " already matches its manifest\n"@)
        } else {
            plain(200, app + ": applied "@ + joined(texts(changed@), ", "@) + "\n"@)
        },
        Err(m) => plain(400, m@ + "\n"@),
    }
}

/// The answer to an upload of a manifest.
pub fn manifest_applied(app: &str, outcome: Result<Vec<String>, String>) -> (r: Reply)
    ensures
        r@ == manifest_answer(app@, outcome),
{
    match outcome {
        Ok(changed) => if changed.len() == 0 {
            Reply::plain(200, app.to_owned().concat(" already matches its manifest\n"))
        } else {
            Reply::plain(
                200,
                app.to_owned().concat(": applied ").concat(
                    join(&changed, ", ").as_str(),
                ).concat("\n"),
            )
        },
        Err(m) => Reply::plain(400, m.concat("\n")),
    }
}

/// How unpacking ended.
pub enum Unpacking {
    Done(Unpacked),
    Refused(String),
    /// The work itself broke off.
    Broken,
}

/// The report on a bundle: how many files went where, what was left out, and a
/// warning where the app root would 404.
pub open spec fn bundle_report(
    config: Config,
    slug: Seq<char>,
    files: Seq<Seq<char>>,
    skipped: Seq<Seq<char>>,
) -> Seq<char> {
    let head = "unpacked "@ + digits(files.len()) + " files to "@ + page_url_of(config, slug)
        + "\n"@;
    let with_skipped = if skipped.len() == 0 {
        head
    } else {
        head + "skipped "@ + joined(skipped, ", "@) + "\n"@
    };
    if files.contains("index.html"@) {
        with_skipped
    } else {
        with_skipped + "warning: no index.html at the bundle root, so the app root will 404\n"@
    }
}

/// The answer to an upload of a bundle.
pub open spec fn bundle_answer(config: Config, slug: Seq<char>, outcome: Unpacking) -> Answer {
    match outcome {
        Unpacking::Done(u) => plain(
            200,
            bundle_report(config, slug, texts(u.files@), labels(u.skipped@)),
        ),
        Unpacking::Refused(m) => plain(400, m@ + "\n"@),
        Unpacking::Broken => plain(500, "unpack failed\n"@),
    }
}

/// Fixed strings as owned ones.
fn owned(v: &Vec<&'static str>) -> (r: Vec<String>)
    ensures
        texts(r@) == labels(v@),
{
    let mut r: Vec<String> = Vec::new();
    let mut i: usize = 0;
    proof {
        assert(texts(r@) =~= labels(v@).take(0));
    }
    while i < v.len()
        invariant
            i <= v.len(),
            texts(r@) == labels(v@).take(i as int),
        decreases v.len() - i,
    {
        let ghost before = r@;
        r.push(v[i].to_owned());
        proof {
            assert(texts(r@) =~= texts(before).push(v@[i as int]@));
            assert(labels(v@).take(i + 1) =~= labels(v@).take(i as int).push(v@[i as int]@));
        }
        i += 1;
    }
    proof {
        assert(labels(v@).take(v@.len() as int) =~= labels(v@));
    }
    r
}

/// The answer to an upload of a bundle.
pub fn bundle_unpacked(config: &Config, slug: &str, outcome: Unpacking) -> (r: Reply)
    ensures
        r@ == bundle_answer(*config, slug@, outcome),
{
    match outcome {
        Unpacking::Done(u) => {
            proof {
                assert(texts(u.files@).len() == u.files@.len());
                assert(labels(u.skipped@).len() == u.skipped@.len());
            }
            let mut body = "unpacked ".to_owned().concat(
                decimal(u.files.len() as u64).as_str(),
            ).concat(" files to ").concat(page_url(config, slug).as_str()).concat("\n");
            if u.skipped.len() > 0 {
                body = body.concat("skipped ").concat(
                    join(&owned(&u.skipped), ", ").as_str(),
                ).concat("\n");
            }
            if !lists(&u.files, "index.html") {
                body = body.concat(
                    "warning: no index.html at the bundle root, so the app root will 404\n",
                );
            }
            Reply::plain(200, body)
        },
        Unpacking::Refused(m) => Reply::plain(400, m.concat("\n")),
        Unpacking::Broken => Reply::says(500, "unpack failed\n"),
    }
}

/// What is kept of an app once a client-routed bundle was unpacked for it.
pub fn mark_spa(meta: PageMeta) -> (r: PageMeta)
    ensures
        r == (PageMeta { spa: true, ..meta }),
{
    PageMeta { spa: true, ..meta }
}

/// What there is to do for a read by ticket.
pub enum DownloadStep {
    Answer(Reply),
    /// Hand back the project stored at `path`.
    Source { app: String, path: String },
    /// Hand back the page at the first of these files that there is.
    Page { direct: String, index: String },
}

/// What there is to do for a read by ticket.
pub open spec fn is_download(
    config: Config,
    now: u64,
    ticket: Seq<char>,
    source: bool,
    r: DownloadStep,
) -> bool {
    match slug_of_ticket(config.uploads@, now, ticket) {
        None => r matches DownloadStep::Answer(a) && a@ == no_ticket(),
        Some(slug) => if source {
            &&& r matches DownloadStep::Source { app, path }
            &&& app@ == app_of(slug)
            &&& path@ == beside(config, app_of(slug), ".source"@)
        } else {
            &&& r matches DownloadStep::Page { direct, index }
            &&& direct@ == beside(config, slug, ".html"@)
            &&& index@ == beside(config, slug, "/index.html"@)
        },
    }
}

/// The same ticket, read side. An agent that can write an app can fetch what
/// it needs to change it: the project it was built from, or the page as
/// served. Scoped to the ticket's own slug, like every write is.
pub fn download(config: &mut Config, now: u64, ticket: &str, source: bool) -> (r: DownloadStep)
    ensures
        is_download(*old(config), now, ticket@, source, r),
        final(config).uploads@ == live(old(config).uploads@, now),
        final(config).data_dir == old(config).data_dir,
        final(config).base_url == old(config).base_url,
        final(config).local_base == old(config).local_base,
        final(config).valid_tokens == old(config).valid_tokens,
        final(config).oauth == old(config).oauth,
        final(config).databases == old(config).databases,
{
    let slug = match ticket_slug(&mut config.uploads, now, ticket) {
        Some(slug) => slug,
        None => {
            return DownloadStep::Answer(
                Reply::says(
                    401,
                    "upload ticket unknown or expired; call create_upload again\n",
                ),
            );
        },
    };
    if source {
        let app = app_name(slug.as_str());
        let path = file_beside(config, app.as_str(), ".source");
        return DownloadStep::Source { app, path };
    }
    DownloadStep::Page {
        direct: file_beside(config, slug.as_str(), ".html"),
        index: file_beside(config, slug.as_str(), "/index.html"),
    }
}

/// The answer to a read of a project: with the file, the headers it is sent
/// with; without one, why there is none.
pub fn source_read(app: &str, found: bool) -> (r: Reply)
    ensures
        r@ == if found {
            with_header(
                typed(200, "application/gzip"@, Seq::empty()),
                "content-disposition"@,
                "attachment; filename=\""@ + app@ + "-source.tar.gz\""@,
            )
        } else {
            plain(
                404,
                "no source stored for "@ + app@
                    + ". Whoever published it did not upload one; send yours with PUT ?source so the next session has it.\n"@,
            )
        },
{
    if found {
        let name = "attachment; filename=\"".to_owned().concat(app).concat("-source.tar.gz\"");
        Reply::typed(200, "application/gzip", String::new()).with(
            "content-disposition",
            name.as_str(),
        )
    } else {
        Reply::plain(
            404,
            "no source stored for ".to_owned().concat(app).concat(
                ". Whoever published it did not upload one; send yours with PUT ?source so the next session has it.\n",
            ),
        )
    }
}

/// The answer to a read of a page.
pub fn page_read(html: Option<String>) -> (r: Reply)
    ensures
        r@ == match html {
            Some(text) => crate::reply::html(200, text@),
            None => plain(404, "nothing published at that slug yet\n"@),
        },
{
    match html {
        Some(text) => Reply::html(200, text),
        None => Reply::says(404, "nothing published at that slug yet\n"),
    }
}

/// What is written is the ticket's own slug or lies below it, and is a slug.
pub proof fn ticket_writes_its_own_slug(own: Seq<char>, sub: Option<Seq<char>>)
    ensures
        written_slug(own, sub) == own || (own + "/"@).is_prefix_of(written_slug(own, sub)),
{
    if let Some(s) = sub {
        let rest = without_suffixes(s, ".html"@);
        let whole = own + "/"@ + rest;
        assert(whole.subrange(0, (own + "/"@).len() as int) =~= own + "/"@);
    }
}

/// Without a live ticket nothing is done, whatever is sent.
pub proof fn no_ticket_no_write(
    config: Config,
    now: u64,
    ticket: Seq<char>,
    sub: Option<Seq<char>>,
    kind: UploadKind,
    body: Seq<u8>,
)
    requires
        !config.uploads@.contains_key(ticket) || config.uploads@[ticket].expires_at <= now,
    ensures
        upload_step(config, now, ticket, sub, kind, body) == Step::Answer(no_ticket()),
{
}

/// Whatever is done to a site for an upload is done for a name that is a slug,
/// so no path that is written leads out of the data directory.
pub proof fn upload_touches_slugs_only(
    config: Config,
    now: u64,
    ticket: Seq<char>,
    sub: Option<Seq<char>>,
    kind: UploadKind,
    body: Seq<u8>,
)
    requires
        !(upload_step(config, now, ticket, sub, kind, body) is Answer),
    ensures
        slug_of_ticket(config.uploads@, now, ticket) is Some,
        ({
            let own = slug_of_ticket(config.uploads@, now, ticket)->0;
            let slug = written_slug(own, sub);
            &&& is_slug(slug)
            &&& crate::content::slug::is_segment(app_of(slug))
            &&& match upload_step(config, now, ticket, sub, kind, body) {
                Step::Write { path, .. } => path == beside(config, slug, ".html"@) || path
                    == beside(config, slug, ".icon"@) || path == beside(
                    config,
                    app_of(slug),
                    ".source"@,
                ),
                Step::Bundle { dest, .. } => dest == inside(config.data_dir@, slug),
                Step::Migrations { app } => app == app_of(slug),
                Step::Manifest { app, .. } => app == app_of(slug),
                Step::Handler { app } => app == app_of(slug),
                Step::Answer(_) => true,
            }
        }),
{
    let own = slug_of_ticket(config.uploads@, now, ticket)->0;
    let slug = written_slug(own, sub);
    crate::text::lemma_split_len(slug, '/');
}

} // verus!
