//! The tools that an agent has: publishing, accounts, settings and jobs, each as
//! what it does and what the agent is told.
use crate::accounts::rows::{first_from, keep};
use crate::accounts::users::{
    activity_set, grant, grant_made, has_email, invite_with, invited, no_account, normal,
    only_grants_change, outlives, revoke, set_active, sign_up_with, signed_up, Accounts, Grant,
    User, LAST_TIME,
};
use crate::accounts::web::{invite_link, invite_url};
use crate::config::Config;
use crate::content::slug::{
    is_drawn, is_segment, is_slug, random_slug, random_token, valid_segment, valid_slug,
};
use crate::content::store::{
    age, beside, file_beside, inside, join_path, page_url, page_url_of, relative_time, PageMeta,
    PathRule,
};
use crate::crypto::random_bytes;
use crate::encode::{json_quote, json_string};
use crate::order::{is_order, is_ordered_from, put_in_order};
use crate::platform::manifest::{is_gate, valid_gate};
use crate::platform::schedule::{
    cron_next, fresh, job_refusal, next_run, remove_job, set_job, Job, LAST_INSTANT,
};
use crate::platform::secrets::{
    create_entry_with, entry_name, names, setting_refusal, value_of, ENTRY_TTL,
};
use crate::platform::upload::{
    live, sweep, upload_url, upload_url_of, UploadTicket, MAX_ICON_BYTES, UPLOAD_TTL,
};
use crate::runtime::db::{list_json, outcome_json, to_json, SqlOutcome};
use crate::table::Table;
use crate::text::{
    decimal, digits, in_order, join, joined, pairs, same, sort, strip_suffix, texts, trim, trimmed,
};
use vstd::prelude::*;
use vstd::utf8::encode_utf8;

verus! {

/// What an agent is told: what came of its call, or why nothing did.
#[derive(Debug, PartialEq)]
pub enum Told {
    Done(String),
    Refused(String),
}

/// What an agent is told, over texts.
pub enum Tells {
    Done(Seq<char>),
    Refused(Seq<char>),
}

impl View for Told {
    type V = Tells;

    open spec fn view(&self) -> Tells {
        match self {
            Told::Done(text) => Tells::Done(text@),
            Told::Refused(text) => Tells::Refused(text@),
        }
    }
}

/// What is said of a slug that is none.
pub const BAD_SLUG: &'static str = "slug must be non-empty path segments (letters, numbers, '-' or '_') separated by '/'";

/// What is said of an app that cannot be one.
pub const BAD_APP: &'static str = "app must be non-empty path segments (letters, numbers, '-' or '_') separated by '/'";

/// What is said of an app whose name is no single segment.
pub const BAD_NAMESPACE: &'static str = "app must be non-empty and contain only letters, numbers, '-' or '_'";

/// What an agent is told of this server when it connects.
pub const INSTRUCTIONS: &'static str = "Publishes self-contained HTML pages at public URLs.\n\nHow to publish, in order of preference:\n1. If you can run shell commands: write the HTML to a file, call create_upload, then `curl -fT <file> <upload-url>`. Never read the file back into the conversation — that is the whole point. Emitting a page's HTML as tool-call arguments when you could have written a file is wasteful, so treat this as the default path.\n2. If curl fails because the sandbox has no network access to this host, fall back to push_page / push_app, which take the HTML inline.\n3. If there is no shell at all, use push_page / push_app directly.\n\nYou are not limited to hand-written HTML. If you can run a shell with network access, scaffolding a real TypeScript/React/Vite project, building it, and uploading the dist folder is fully supported and often the better answer for anything interactive: `tar -czf - -C dist . | curl -f -T - '<upload-url>?bundle'`, adding &spa if it uses a client-side router. Every app is served from a subpath (/p/<slug>/), never the domain root, so set the build's base path accordingly — create_upload prints the exact value. Skipping that step produces a page that loads but renders blank, because its assets 404.\n\nCall list_pages to see what already exists before picking a slug or editing something, and app_notes to read what a previous session left about an app before changing it — a bundle's source cannot be recovered from the page it serves, so those notes may be the only record. Leave your own when you finish. To edit, fetch the page with `curl <page-url>` into a file (or pull_page / pull_app when you have no shell), edit it, then re-upload to the same slug. set_visibility retracts a page without deleting it — nothing here destroys data. Icons are optional: set_icon takes an emoji or SVG, an image file goes to `<upload-url>?icon`, and anything without one gets a generated badge.";

/// The slug that a page goes to: the one that was asked for, or a random one.
pub fn chosen_slug(slug: Option<String>) -> (r: String)
    ensures
        match slug {
            Some(s) => r == s,
            None => is_slug(r@) && is_drawn(r@, 8),
        },
{
    match slug {
        Some(s) => s,
        None => random_slug(),
    }
}

/// A page to write, and what the agent is told once it is written.
pub struct PageWrite {
    pub path: String,
    pub told: Told,
}

/// Publishes a page: where it is written, or why it is not.
pub fn push_page(config: &Config, slug: &str) -> (r: Result<PageWrite, Told>)
    ensures
        match r {
            Ok(write) => is_slug(slug@) && write.path@ == beside(*config, slug@, ".html"@)
                && write.told@ == Tells::Done(page_url_of(*config, slug@)),
            Err(told) => !is_slug(slug@) && told@ == Tells::Refused(BAD_SLUG@),
        },
{
    if !valid_slug(slug) {
        return Err(Told::Refused(BAD_SLUG.to_owned()));
    }
    Ok(
        PageWrite {
            path: file_beside(config, slug, ".html"),
            told: Told::Done(page_url(config, slug)),
        },
    )
}

/// Fetches a page: where it is read, or why it is not.
pub fn pull_page(config: &Config, slug: &str) -> (r: Result<String, Told>)
    ensures
        match r {
            Ok(path) => is_slug(slug@) && path@ == beside(*config, slug@, ".html"@),
            Err(told) => !is_slug(slug@) && told@ == Tells::Refused(BAD_SLUG@),
        },
{
    if !valid_slug(slug) {
        return Err(Told::Refused(BAD_SLUG.to_owned()));
    }
    Ok(file_beside(config, slug, ".html"))
}

/// What the agent is told of a page that was read, if it could be.
pub fn page_pulled(slug: &str, html: Option<String>) -> (r: Told)
    ensures
        r@ == match html {
            Some(html) => Tells::Done(html@),
            None => Tells::Refused("no page found for slug '"@ + slug@ + "'"@),
        },
{
    match html {
        Some(html) => Told::Done(html),
        None => Told::Refused("no page found for slug '".to_owned().concat(slug).concat("'")),
    }
}

/// Why an app is not published, by its name and the names of its pages.
pub open spec fn app_refusal(app: Seq<char>, pages: Seq<Seq<char>>) -> Option<Seq<char>> {
    if !is_segment(app) {
        Some(BAD_NAMESPACE@)
    } else if pages.len() == 0 {
        Some("pages must not be empty"@)
    } else {
        pages_refusal(pages)
    }
}

/// Why the first page that is refused for its name is refused.
pub open spec fn pages_refusal(pages: Seq<Seq<char>>) -> Option<Seq<char>>
    decreases pages.len(),
{
    if pages.len() == 0 {
        None
    } else {
        match pages_refusal(pages.drop_last()) {
            Some(why) => Some(why),
            None => if is_segment(pages.last()) {
                None
            } else {
                Some(
                    "page name '"@ + pages.last()
                        + "' must be non-empty and contain only letters, numbers, '-' or '_'"@,
                )
            },
        }
    }
}

/// How the URL of a page of an app is reported: `index` is what the app's root
/// serves, so that URL stands for it.
pub open spec fn page_line(config: Config, app: Seq<char>, name: Seq<char>) -> Seq<char> {
    name + ": "@ + page_url_of(
        config,
        if name == "index"@ {
            app
        } else {
            app + "/"@ + name
        },
    )
}

/// How the URLs of the pages of an app are reported.
pub open spec fn page_lines(config: Config, app: Seq<char>, pages: Seq<Seq<char>>) -> Seq<
    Seq<char>,
> {
    pages.map_values(|name: Seq<char>| page_line(config, app, name))
}

/// The files that the pages of an app are written to, one for each, and what the
/// agent is told then.
pub struct AppWrite {
    pub paths: Vec<String>,
    pub told: Told,
}

/// Publishes a whole app, page by page. `pages` are the names of its pages.
pub fn push_app(config: &Config, app: &str, pages: &Vec<String>) -> (r: Result<AppWrite, Told>)
    ensures
        match r {
            Ok(write) => {
                &&& app_refusal(app@, texts(pages@)) is None
                &&& write.paths.len() == pages.len()
                &&& forall|i: int|
                    0 <= i < pages.len() ==> (#[trigger] write.paths@[i])@ == inside(
                        inside(config.data_dir@, app@),
                        pages@[i]@ + ".html"@,
                    )
                &&& exists|lines: Seq<Seq<char>>|
                    #![trigger in_order(lines)]
                    in_order(lines) && lines.to_multiset() == page_lines(
                        *config,
                        app@,
                        texts(pages@),
                    ).to_multiset() && write.told@ == Tells::Done(joined(lines, "\n"@))
            },
            Err(told) => match app_refusal(app@, texts(pages@)) {
                Some(why) => told@ == Tells::Refused(why),
                None => false,
            },
        },
{
    let ghost all = texts(pages@);
    if !valid_segment(app) {
        return Err(Told::Refused(BAD_NAMESPACE.to_owned()));
    }
    if pages.len() == 0 {
        return Err(Told::Refused("pages must not be empty".to_owned()));
    }
    let mut i: usize = 0;
    while i < pages.len()
        invariant
            i <= pages.len(),
            pages.len() > 0,
            is_segment(app@),
            all == texts(pages@),
            pages_refusal(all.take(i as int)) is None,
        decreases pages.len() - i,
    {
        proof {
            assert(all.take(i + 1).drop_last() =~= all.take(i as int));
            assert(all.take(i + 1).last() == pages@[i as int]@);
        }
        if !valid_segment(pages[i].as_str()) {
            proof {
                lemma_first_refusal(all, i + 1);
            }
            return Err(
                Told::Refused(
                    "page name '".to_owned().concat(pages[i].as_str()).concat(
                        "' must be non-empty and contain only letters, numbers, '-' or '_'",
                    ),
                ),
            );
        }
        i += 1;
    }
    assert(all.take(all.len() as int) =~= all);
    let dir = join_path(config.data_dir.as_str(), app);
    let mut paths: Vec<String> = Vec::new();
    let mut lines: Vec<String> = Vec::new();
    i = 0;
    while i < pages.len()
        invariant
            i <= pages.len(),
            all == texts(pages@),
            paths.len() == i,
            lines.len() == i,
            dir@ == inside(config.data_dir@, app@),
            forall|j: int|
                0 <= j < i ==> (#[trigger] paths@[j])@ == inside(dir@, pages@[j]@ + ".html"@),
            forall|j: int|
                0 <= j < i ==> (#[trigger] lines@[j])@ == page_line(*config, app@, all[j]),
        decreases pages.len() - i,
    {
        let name = pages[i].as_str();
        assert(all[i as int] == name@);
        paths.push(join_path(dir.as_str(), name.to_owned().concat(".html").as_str()));
        let slug: String = if same(name, "index") {
            app.to_owned()
        } else {
            app.to_owned().concat("/").concat(name)
        };
        lines.push(name.to_owned().concat(": ").concat(page_url(config, slug.as_str()).as_str()));
        i += 1;
    }
    assert(texts(lines@) =~= page_lines(*config, app@, all));
    let sorted = sort(lines);
    let told = Told::Done(join(&sorted, "\n").as_str().to_owned());
    proof {
        assert(in_order(texts(sorted@)));
    }
    Ok(AppWrite { paths, told })
}

/// A refusal among the first pages is the refusal of all of them.
proof fn lemma_first_refusal(pages: Seq<Seq<char>>, n: int)
    requires
        0 <= n <= pages.len(),
        pages_refusal(pages.take(n)) is Some,
    ensures
        pages_refusal(pages) == pages_refusal(pages.take(n)),
    decreases pages.len(),
{
    if n < pages.len() {
        assert(pages.drop_last().take(n) =~= pages.take(n));
        lemma_first_refusal(pages.drop_last(), n);
    } else {
        assert(pages.take(n) =~= pages);
    }
}

/// How to upload, in the words an agent gets: `upload` is the URL to upload to,
/// `page` the URL that the page will have, `site` the one of the site.
#[verifier::opaque]
pub open spec fn upload_help(
    upload: Seq<char>,
    page: Seq<char>,
    site: Seq<char>,
    slug: Seq<char>,
) -> Seq<char> {
    let trimmed = "/p/"@ + slug;
    let base = trimmed + "/"@;
    "Upload with (expires in 15 min, reusable until then):\n\n  curl -fT <file.html> "@
        + upload
        + "\n\nMulti-page app — append the page name, one PUT per page:\n\n  curl -fT index.html "@
        + upload
        + "/index\n  curl -fT about.html "@
        + upload
        + "/about\n\nWhole built site (TypeScript/React/Vite/Svelte/etc), gzipped tar of dist:\n\n  tar -czf - -C dist . | curl -f -T - '"@
        + upload
        + "?bundle'\n\nAdd &spa for a client-side router, so unknown paths serve index.html:\n\n  tar -czf - -C dist . | curl -f -T - '"@
        + upload
        + "?bundle&spa'\n\nIMPORTANT — this app is served from "@
        + base
        + ", not from the domain root, so a default build config will emit /assets/... URLs that 404 and render a blank page. Before building, set the base path:\n\n  vite.config: base: '"@
        + base
        + "'\n  next.config: basePath: '"@
        + trimmed
        + "', assetPrefix: '"@
        + base
        + "'\n  create-react-app package.json: \"homepage\": \""@
        + base
        + "\"\n\nWith a router, set its basename to '"@
        + trimmed
        + "' too (e.g. createBrowserRouter(routes, { basename: '"@
        + trimmed
        + "' })).\n\nAfter uploading, verify with: curl -I "@
        + page
        + "/assets/<one-built-file>\n\nServer-side code — a wasm component that gets this app's own SQLite database and nothing else. Start from the scaffold; it vendors the contract and builds as-is:\n\n  curl -s "@
        + site
        + "/scaffold/"@
        + slug
        + " | tar xz && cd "@
        + slug
        + "-handler\n\n  rustup target add wasm32-wasip2\n\n  cargo build --release --target wasm32-wasip2\n\n  curl -f -T target/wasm32-wasip2/release/*.wasm '"@
        + upload
        + "?handler'\n\nThe contract alone is at "@
        + site
        + "/wit/toolsite.wit.\n\nKeep the project with the app, since a bundle cannot be turned back into the sources that built it. Visitors only ever see what the bundle contained:\n\n  tar -czf - --exclude node_modules --exclude target . | curl -f -T - '"@
        + upload
        + "?source'\n\nAnd to pick up where a previous session left off:\n\n  curl -s '"@
        + upload
        + "?source' | tar xz\n\nIt then answers every request under "@
        + page
        + "/api/, and any route with no file              behind it. It is rejected at upload if it is not a valid component.\n\nEach upload replies with the page's public URL. Single-file page lands at "@
        + page
}

/// How to upload, in the words an agent gets.
fn upload_text(upload: &str, page: &str, site: &str, slug: &str) -> (r: String)
    ensures
        r@ == upload_help(upload@, page@, site@, slug@),
{
    let trimmed = "/p/".to_owned().concat(slug);
    let base = trimmed.clone().concat("/");
    let trimmed = trimmed.as_str();
    let base = base.as_str();
    proof {
        reveal(upload_help);
    }
    "Upload with (expires in 15 min, reusable until then):\n\n  curl -fT <file.html> ".to_owned()
        .concat(upload)
        .concat("\n\nMulti-page app — append the page name, one PUT per page:\n\n  curl -fT index.html ")
        .concat(upload)
        .concat("/index\n  curl -fT about.html ")
        .concat(upload)
        .concat("/about\n\nWhole built site (TypeScript/React/Vite/Svelte/etc), gzipped tar of dist:\n\n  tar -czf - -C dist . | curl -f -T - '")
        .concat(upload)
        .concat("?bundle'\n\nAdd &spa for a client-side router, so unknown paths serve index.html:\n\n  tar -czf - -C dist . | curl -f -T - '")
        .concat(upload)
        .concat("?bundle&spa'\n\nIMPORTANT — this app is served from ")
        .concat(base)
        .concat(", not from the domain root, so a default build config will emit /assets/... URLs that 404 and render a blank page. Before building, set the base path:\n\n  vite.config: base: '")
        .concat(base)
        .concat("'\n  next.config: basePath: '")
        .concat(trimmed)
        .concat("', assetPrefix: '")
        .concat(base)
        .concat("'\n  create-react-app package.json: \"homepage\": \"")
        .concat(base)
        .concat("\"\n\nWith a router, set its basename to '")
        .concat(trimmed)
        .concat("' too (e.g. createBrowserRouter(routes, { basename: '")
        .concat(trimmed)
        .concat("' })).\n\nAfter uploading, verify with: curl -I ")
        .concat(page)
        .concat("/assets/<one-built-file>\n\nServer-side code — a wasm component that gets this app's own SQLite database and nothing else. Start from the scaffold; it vendors the contract and builds as-is:\n\n  curl -s ")
        .concat(site)
        .concat("/scaffold/")
        .concat(slug)
        .concat(" | tar xz && cd ")
        .concat(slug)
        .concat("-handler\n\n  rustup target add wasm32-wasip2\n\n  cargo build --release --target wasm32-wasip2\n\n  curl -f -T target/wasm32-wasip2/release/*.wasm '")
        .concat(upload)
        .concat("?handler'\n\nThe contract alone is at ")
        .concat(site)
        .concat("/wit/toolsite.wit.\n\nKeep the project with the app, since a bundle cannot be turned back into the sources that built it. Visitors only ever see what the bundle contained:\n\n  tar -czf - --exclude node_modules --exclude target . | curl -f -T - '")
        .concat(upload)
        .concat("?source'\n\nAnd to pick up where a previous session left off:\n\n  curl -s '")
        .concat(upload)
        .concat("?source' | tar xz\n\nIt then answers every request under ")
        .concat(page)
        .concat("/api/, and any route with no file              behind it. It is rejected at upload if it is not a valid component.\n\nEach upload replies with the page's public URL. Single-file page lands at ")
        .concat(page)
}

/// Hands out an upload URL with the ticket that was drawn for it.
pub fn create_upload_with(config: &mut Config, slug: &str, ticket: String, now: u64) -> (r: Told)
    requires
        now <= u64::MAX - UPLOAD_TTL,
    ensures
        final(config).data_dir == old(config).data_dir,
        final(config).base_url == old(config).base_url,
        final(config).local_base == old(config).local_base,
        final(config).valid_tokens == old(config).valid_tokens,
        final(config).oauth == old(config).oauth,
        final(config).databases == old(config).databases,
        if is_slug(slug@) {
            &&& r@ == Tells::Done(
                upload_help(
                    upload_url_of(*old(config), ticket@),
                    page_url_of(*old(config), slug@),
                    old(config).public_base(),
                    slug@,
                ),
            )
            &&& final(config).uploads@.remove(ticket@) == live(old(config).uploads@, now).remove(
                ticket@,
            )
            &&& final(config).uploads@.contains_key(ticket@)
            &&& final(config).uploads@[ticket@].slug@ == slug@
            &&& final(config).uploads@[ticket@].expires_at == now + UPLOAD_TTL
        } else {
            r@ == Tells::Refused(BAD_SLUG@) && final(config).uploads@ == old(config).uploads@
        },
{
    if !valid_slug(slug) {
        return Told::Refused(BAD_SLUG.to_owned());
    }
    let upload = upload_url(config, ticket.as_str());
    let page = page_url(config, slug);
    let site: String = match &config.base_url {
        Some(base) => base.clone(),
        None => config.local_base.clone(),
    };
    sweep(&mut config.uploads, now);
    let ghost k = ticket@;
    let ghost swept = config.uploads@;
    config.uploads.insert(
        ticket,
        UploadTicket { slug: slug.to_owned(), expires_at: now + UPLOAD_TTL },
    );
    proof {
        assert(config.uploads@.remove(k) =~= swept.remove(k));
    }
    Told::Done(upload_text(upload.as_str(), page.as_str(), site.as_str(), slug))
}

/// Hands out a short-lived URL to upload to. Which ticket it carries is left to
/// chance.
pub fn create_upload(config: &mut Config, slug: &str, now: u64) -> (r: Told)
    requires
        now <= u64::MAX - UPLOAD_TTL,
    ensures
        final(config).data_dir == old(config).data_dir,
        final(config).base_url == old(config).base_url,
        final(config).local_base == old(config).local_base,
        final(config).valid_tokens == old(config).valid_tokens,
        final(config).oauth == old(config).oauth,
        final(config).databases == old(config).databases,
        if is_slug(slug@) {
            exists|ticket: Seq<char>|
                {
                    &&& is_drawn(ticket, 32)
                    &&& r@ == Tells::Done(
                        upload_help(
                            upload_url_of(*old(config), ticket),
                            page_url_of(*old(config), slug@),
                            old(config).public_base(),
                            slug@,
                        ),
                    )
                    &&& final(config).uploads@.remove(ticket) == live(
                        old(config).uploads@,
                        now,
                    ).remove(ticket)
                    &&& #[trigger] final(config).uploads@.contains_key(ticket)
                    &&& final(config).uploads@[ticket].slug@ == slug@
                    &&& final(config).uploads@[ticket].expires_at == now + UPLOAD_TTL
                }
        } else {
            r@ == Tells::Refused(BAD_SLUG@) && final(config).uploads@ == old(config).uploads@
        },
{
    let ticket = random_token(32);
    create_upload_with(config, slug, ticket, now)
}

/// What an agent is told of a statement that it ran.
pub fn run_sql(outcome: Result<SqlOutcome, String>) -> (r: Told)
    ensures
        r@ == match outcome {
            Ok(o) => Tells::Done(outcome_json(o)),
            Err(m) => Tells::Refused(m@),
        },
{
    match outcome {
        Ok(o) => Told::Done(to_json(&o)),
        Err(m) => Told::Refused(m),
    }
}

/// An account to make.
pub struct CreateUserRequest {
    pub email: String,
    pub password: Option<String>,
    pub admin: Option<bool>,
}

/// Whether an optional choice was made for something.
pub open spec fn chosen(choice: Option<bool>, otherwise: bool) -> bool {
    match choice {
        Some(b) => b,
        None => otherwise,
    }
}

/// What is said of an account's standing.
pub open spec fn standing(user: User) -> Seq<char> {
    if user.is_admin {
        " as an admin"@
    } else {
        ""@
    }
}

/// What is told of an account that was made with a password.
pub open spec fn told_created(r: Result<User, String>) -> Tells {
    match r {
        Ok(user) => Tells::Done(
            "created "@ + user.email@ + standing(user) + " ("@ + user.id@ + ")"@,
        ),
        Err(m) => Tells::Refused(m@),
    }
}

/// What is told of an account that waits for its owner to choose a password.
pub open spec fn told_invited(config: Config, r: Result<(User, String), String>) -> Tells {
    match r {
        Ok((user, token)) => Tells::Done(
            "created "@ + user.email@ + standing(user)
                + ". Send them this link to choose a password (good for 48 hours, works once):\n"@
                + invite_link(config, token@),
        ),
        Err(m) => Tells::Refused(m@),
    }
}

/// What making an account does, by the id, the salt and the token that were
/// drawn for it.
pub open spec fn user_created(
    config: Config,
    before: Accounts,
    after: Accounts,
    request: CreateUserRequest,
    id: Seq<char>,
    salt: Seq<u8>,
    token: Seq<char>,
    now: u64,
    told: Tells,
) -> bool {
    match request.password {
        Some(password) => exists|r: Result<User, String>| #[trigger]
            signed_up(
                before,
                after,
                request.email@,
                password@,
                chosen(request.admin, false),
                id,
                salt,
                now,
                r,
            ) && told == told_created(r),
        None => exists|r: Result<(User, String), String>| #[trigger]
            invited(
                before,
                after,
                request.email@,
                chosen(request.admin, false),
                id,
                token,
                now,
                r,
            ) && told == told_invited(config, r),
    }
}

/// Makes an account with what was drawn for it.
pub fn create_user_with(
    config: &Config,
    accounts: &mut Accounts,
    request: &CreateUserRequest,
    id: String,
    salt: &Vec<u8>,
    token: String,
    now: u64,
) -> (r: Told)
    requires
        salt.len() == 16,
        now <= LAST_TIME,
    ensures
        user_created(
            *config,
            *old(accounts),
            *final(accounts),
            *request,
            id@,
            salt@,
            token@,
            now,
            r@,
        ),
        old(accounts).wf() ==> final(accounts).wf(),
{
    let is_admin: bool = match request.admin {
        Some(b) => b,
        None => false,
    };
    let ghost (i, t) = (id@, token@);
    match &request.password {
        Some(password) => {
            let made = sign_up_with(
                accounts,
                request.email.as_str(),
                password.as_str(),
                is_admin,
                id,
                salt,
                now,
            );
            let ghost result = made;
            let told = match made {
                Ok(user) => Told::Done(
                    "created ".to_owned().concat(user.email.as_str()).concat(
                        if user.is_admin {
                            " as an admin"
                        } else {
                            ""
                        },
                    ).concat(" (").concat(user.id.as_str()).concat(")"),
                ),
                Err(m) => Told::Refused(m),
            };
            assert(signed_up(
                *old(accounts),
                *accounts,
                request.email@,
                password@,
                chosen(request.admin, false),
                i,
                salt@,
                now,
                result,
            ));
            assert(told@ == told_created(result));
            told
        },
        None => {
            let made = invite_with(accounts, request.email.as_str(), is_admin, id, token, now);
            let ghost result = made;
            let told = match made {
                Ok((user, token)) => Told::Done(
                    "created ".to_owned().concat(user.email.as_str()).concat(
                        if user.is_admin {
                            " as an admin"
                        } else {
                            ""
                        },
                    ).concat(
                        ". Send them this link to choose a password (good for 48 hours, works once):\n",
                    ).concat(invite_url(config, token.as_str()).as_str()),
                ),
                Err(m) => Told::Refused(m),
            };
            assert(invited(
                *old(accounts),
                *accounts,
                request.email@,
                chosen(request.admin, false),
                i,
                t,
                now,
                result,
            ));
            assert(told@ == told_invited(*config, result));
            told
        },
    }
}

/// Makes an account someone can sign in with, or one whose owner chooses the
/// password by a link. Which id, salt and token come up is left to chance.
pub fn create_user(
    config: &Config,
    accounts: &mut Accounts,
    request: &CreateUserRequest,
    now: u64,
) -> (r: Told)
    requires
        now <= LAST_TIME,
    ensures
        exists|id: Seq<char>, salt: Seq<u8>, token: Seq<char>|
            is_drawn(id, 16) && salt.len() == 16 && is_drawn(token, 48) && #[trigger] user_created(
                *config,
                *old(accounts),
                *final(accounts),
                *request,
                id,
                salt,
                token,
                now,
                r@,
            ),
        old(accounts).wf() ==> final(accounts).wf(),
{
    let id = random_token(16);
    let salt = random_bytes(16);
    let token = random_token(48);
    create_user_with(config, accounts, request, id, &salt, token, now)
}

/// What to do with an app's jobs.
pub struct ScheduleRequest {
    pub app: String,
    pub name: Option<String>,
    pub schedule: Option<String>,
    pub path: Option<String>,
    pub run_now: Option<bool>,
}

/// What comes of a request about jobs: an answer, or a job to run now.
#[derive(Debug, PartialEq)]
pub enum JobStep {
    Answer(Told),
    Run(String),
}

/// How a job is listed.
pub open spec fn job_line(name: Seq<char>, job: Job) -> Seq<char> {
    name + ": "@ + job.schedule@ + " -> "@ + job.path@ + " (last: "@ + match job.last_status {
        Some(status) => status@,
        None => "never run"@,
    } + ")"@
}

/// How the jobs of an app are listed, in the order of their names.
pub open spec fn job_lines(jobs: Table<Job>) -> Seq<Seq<char>> {
    jobs.order().map_values(|name: Seq<char>| job_line(name, jobs@[name]))
}

/// What is told of the jobs of an app.
pub open spec fn jobs_listed(app: Seq<char>, jobs: Table<Job>) -> Seq<char> {
    if jobs.order().len() == 0 {
        app + " has no scheduled jobs"@
    } else {
        joined(job_lines(jobs), "\n"@)
    }
}

/// What is told of the jobs of an app.
fn list_jobs(app: &str, jobs: &Table<Job>) -> (r: String)
    ensures
        r@ == jobs_listed(app@, *jobs),
{
    if jobs.len() == 0 {
        return app.to_owned().concat(" has no scheduled jobs");
    }
    let mut lines: Vec<String> = Vec::new();
    let mut i: usize = 0;
    while i < jobs.len()
        invariant
            i <= jobs.order().len(),
            lines.len() == i,
            forall|j: int|
                0 <= j < i ==> (#[trigger] lines@[j])@ == job_line(
                    jobs.order()[j],
                    jobs@[jobs.order()[j]],
                ),
        decreases jobs.order().len() - i,
    {
        let (name, job) = jobs.row(i);
        let status: &str = match &job.last_status {
            Some(status) => status.as_str(),
            None => "never run",
        };
        lines.push(
            name.clone().concat(": ").concat(job.schedule.as_str()).concat(" -> ").concat(
                job.path.as_str(),
            ).concat(" (last: ").concat(status).concat(")"),
        );
        i += 1;
    }
    assert(texts(lines@) =~= job_lines(*jobs));
    join(&lines, "\n")
}

/// What a request about jobs does.
pub open spec fn jobs_changed(
    request: ScheduleRequest,
    now: i64,
    before: Table<Job>,
    after: Table<Job>,
    step: JobStep,
) -> bool {
    let unchanged = after@ == before@;
    if !is_slug(request.app@) {
        unchanged && (step matches JobStep::Answer(told) && told@ == Tells::Refused(BAD_APP@))
    } else {
        match request.name {
            None => unchanged && (step matches JobStep::Answer(told) && told@ == Tells::Done(
                jobs_listed(request.app@, before),
            )),
            Some(name) => if request.run_now == Some(true) {
                unchanged && (step matches JobStep::Run(n) && n@ == name@)
            } else {
                match (request.schedule, request.path) {
                    (Some(schedule), Some(path)) => match job_refusal(
                        name@,
                        schedule@,
                        path@,
                        now,
                    ) {
                        Some(why) => unchanged && (step matches JobStep::Answer(told) && told@
                            == Tells::Refused(why)),
                        None => {
                            &&& after@.contains_key(name@)
                            &&& fresh(after@[name@], schedule@, path@)
                            &&& after@.remove(name@) == before@.remove(name@)
                            &&& step matches JobStep::Answer(told)
                            &&& told@ == Tells::Done(
                                name@ + " scheduled; "@ + next_run(
                                    (cron_next(schedule@, now)->Ok_0)->0,
                                ),
                            )
                        },
                    },
                    (None, None) => {
                        &&& after@ == before@.remove(name@)
                        &&& step matches JobStep::Answer(told)
                        &&& told@ == if before@.contains_key(name@) {
                            Tells::Done(name@ + " is no longer scheduled"@)
                        } else {
                            Tells::Refused(request.app@ + " has no job called "@ + name@)
                        }
                    },
                    _ => unchanged && (step matches JobStep::Answer(told) && told@
                        == Tells::Refused("give both schedule and path, or neither to remove"@)),
                }
            },
        }
    }
}

/// Schedules a job of an app, removes one, lists them, or says to run one now.
pub fn app_jobs(jobs: &mut Table<Job>, request: &ScheduleRequest, now: i64) -> (r: JobStep)
    requires
        now != LAST_INSTANT,
    ensures
        jobs_changed(*request, now, *old(jobs), *final(jobs), r),
{
    if !valid_slug(request.app.as_str()) {
        return JobStep::Answer(Told::Refused(BAD_APP.to_owned()));
    }
    let app = request.app.as_str();
    let name: &str = match &request.name {
        Some(name) => name.as_str(),
        None => {
            return JobStep::Answer(Told::Done(list_jobs(app, jobs)));
        },
    };
    if let Some(now_too) = request.run_now {
        if now_too {
            return JobStep::Run(name.to_owned());
        }
    }
    match (&request.schedule, &request.path) {
        (Some(schedule), Some(path)) => {
            let told = match set_job(jobs, app, name, schedule.as_str(), path.as_str(), now) {
                Ok(next) => Told::Done(
                    name.to_owned().concat(" scheduled; ").concat(next.as_str()),
                ),
                Err(m) => Told::Refused(m),
            };
            JobStep::Answer(told)
        },
        (None, None) => {
            let told = match remove_job(jobs, app, name) {
                Ok(_) => Told::Done(name.to_owned().concat(" is no longer scheduled")),
                Err(m) => Told::Refused(m),
            };
            JobStep::Answer(told)
        },
        _ => JobStep::Answer(
            Told::Refused("give both schedule and path, or neither to remove".to_owned()),
        ),
    }
}

/// What is told of a job that was run on demand.
pub fn job_ran(name: &str, outcome: Result<String, String>) -> (r: Told)
    ensures
        r@ == match outcome {
            Ok(status) => Tells::Done(name@ + " ran: "@ + status@),
            Err(m) => Tells::Refused(m@),
        },
{
    match outcome {
        Ok(status) => Told::Done(name.to_owned().concat(" ran: ").concat(status.as_str())),
        Err(m) => Told::Refused(m),
    }
}

/// What to do with an app's settings.
pub struct SecretRequest {
    pub app: String,
    pub name: Option<String>,
    pub value: Option<String>,
    pub link: Option<bool>,
}

/// What is told of a link to enter settings.
pub open spec fn told_link(config: Config, token: Seq<char>) -> Tells {
    Tells::Done(
        "Send this to whoever holds the credentials. It lasts an hour, takes one NAME=value per line, and the values never come back through here:\n"@
            + (config.public_base() + "/settings/"@ + token),
    )
}

/// What a request for a link to enter settings does.
pub open spec fn link_made(
    before: Config,
    after: Config,
    request: SecretRequest,
    token: Seq<char>,
    now: u64,
    told: Tells,
) -> bool {
    if !is_slug(request.app@) {
        after.uploads@ == before.uploads@ && told == Tells::Refused(BAD_APP@)
    } else {
        &&& told == told_link(before, token)
        &&& after.uploads@.remove(entry_name(token)) == live(before.uploads@, now).remove(
            entry_name(token),
        )
        &&& after.uploads@.contains_key(entry_name(token))
        &&& after.uploads@[entry_name(token)].slug@ == request.app@
        &&& after.uploads@[entry_name(token)].expires_at == now + ENTRY_TTL
    }
}

/// Makes a link to enter settings with the token that was drawn for it.
pub fn settings_link_with(config: &mut Config, request: &SecretRequest, token: String, now: u64)
    -> (r: Told)
    requires
        now <= u64::MAX - ENTRY_TTL,
    ensures
        link_made(*old(config), *final(config), *request, token@, now, r@),
        final(config).data_dir == old(config).data_dir,
        final(config).base_url == old(config).base_url,
        final(config).local_base == old(config).local_base,
        final(config).valid_tokens == old(config).valid_tokens,
        final(config).oauth == old(config).oauth,
        final(config).databases == old(config).databases,
{
    if !valid_slug(request.app.as_str()) {
        return Told::Refused(BAD_APP.to_owned());
    }
    match create_entry_with(config, request.app.as_str(), token, now) {
        Ok(url) => Told::Done(
            "Send this to whoever holds the credentials. It lasts an hour, takes one NAME=value per line, and the values never come back through here:\n".to_owned().concat(
                url.as_str(),
            ),
        ),
        Err(m) => Told::Refused(m),
    }
}

/// Makes a link to enter settings, with a token that chance decides.
pub fn settings_link(config: &mut Config, request: &SecretRequest, now: u64) -> (r: Told)
    requires
        now <= u64::MAX - ENTRY_TTL,
    ensures
        exists|token: Seq<char>|
            is_drawn(token, 40) && #[trigger] link_made(
                *old(config),
                *final(config),
                *request,
                token,
                now,
                r@,
            ),
        final(config).data_dir == old(config).data_dir,
        final(config).base_url == old(config).base_url,
        final(config).local_base == old(config).local_base,
        final(config).valid_tokens == old(config).valid_tokens,
        final(config).oauth == old(config).oauth,
        final(config).databases == old(config).databases,
{
    let token = random_token(40);
    settings_link_with(config, request, token, now)
}

/// What a request about settings, other than for a link, does.
pub open spec fn settings_changed(
    before: Map<Seq<char>, String>,
    after: Map<Seq<char>, String>,
    key: Seq<u8>,
    request: SecretRequest,
    told: Tells,
) -> bool {
    if !is_slug(request.app@) {
        after == before && told == Tells::Refused(BAD_APP@)
    } else {
        match request.name {
            None => after == before && exists|listed: Seq<Seq<char>>|
                #![trigger in_order(listed)]
                in_order(listed) && listed.no_duplicates() && (forall|k: Seq<char>|
                    listed.contains(k) == #[trigger] before.contains_key(k)) && told
                    == Tells::Done(
                    if listed.len() == 0 {
                        request.app@ + " has no settings"@
                    } else {
                        request.app@ + ": "@ + joined(listed, ", "@)
                    },
                ),
            Some(name) => {
                &&& after.remove(name@) == before.remove(name@)
                &&& match setting_refusal(request.app@, name@) {
                    Some(why) => after == before && told == Tells::Refused(why),
                    None => match request.value {
                        Some(value) => {
                            ||| told == Tells::Done(name@ + " is set for "@ + request.app@)
                                && value_of(after, key, name@) == Some(value@)
                            ||| told == Tells::Refused("could not encrypt"@) && after == before
                        },
                        None => if before.contains_key(name@) {
                            !after.contains_key(name@) && told == Tells::Done(
                                name@ + " is gone from "@ + request.app@,
                            )
                        } else {
                            after == before && told == Tells::Refused(
                                request.app@ + " has no setting called "@ + name@,
                            )
                        },
                    },
                }
            },
        }
    }
}

/// Sets a setting of an app, removes one, or lists their names. A value never
/// comes back out.
pub fn app_settings(settings: &mut Table<String>, key: &Vec<u8>, request: &SecretRequest) -> (r:
    Told)
    requires
        key.len() == 32,
    ensures
        settings_changed(old(settings)@, final(settings)@, key@, *request, r@),
{
    if !valid_slug(request.app.as_str()) {
        return Told::Refused(BAD_APP.to_owned());
    }
    let app = request.app.as_str();
    match &request.name {
        Some(name) => match &request.value {
            Some(value) => match crate::platform::secrets::set(
                settings,
                app,
                key,
                name.as_str(),
                Some(value.as_str()),
            ) {
                Ok(_) => Told::Done(name.clone().concat(" is set for ").concat(app)),
                Err(m) => Told::Refused(m),
            },
            None => match crate::platform::secrets::set(settings, app, key, name.as_str(), None) {
                Ok(_) => Told::Done(name.clone().concat(" is gone from ").concat(app)),
                Err(m) => Told::Refused(m),
            },
        },
        None => {
            let listed = names(settings);
            assert(in_order(texts(listed@)));
            assert(texts(listed@).len() == listed.len());
            if listed.len() == 0 {
                Told::Done(app.to_owned().concat(" has no settings"))
            } else {
                Told::Done(app.to_owned().concat(": ").concat(join(&listed, ", ").as_str()))
            }
        },
    }
}

/// Where the notes of an app are, or why there are none.
pub fn app_notes(config: &Config, slug: &str) -> (r: Result<String, Told>)
    ensures
        match r {
            Ok(path) => is_slug(slug@) && path@ == beside(*config, slug@, ".notes"@),
            Err(told) => !is_slug(slug@) && told@ == Tells::Refused(BAD_SLUG@),
        },
{
    if !valid_slug(slug) {
        return Err(Told::Refused(BAD_SLUG.to_owned()));
    }
    Ok(file_beside(config, slug, ".notes"))
}

/// What is told of notes that were saved.
pub fn notes_saved(slug: &str, notes: &str) -> (r: Told)
    requires
        encode_utf8(notes@).len() <= u64::MAX,
    ensures
        r@ == Tells::Done(
            "saved "@ + digits(encode_utf8(notes@).len()) + " characters of notes for "@ + slug@,
        ),
{
    Told::Done(
        "saved ".to_owned().concat(decimal(notes.as_bytes().len() as u64).as_str()).concat(
            " characters of notes for ",
        ).concat(slug),
    )
}

/// What is told of notes that were looked for.
pub fn notes_read(slug: &str, notes: Option<String>) -> (r: Told)
    ensures
        r@ == match notes {
            Some(notes) => Tells::Done(notes@),
            None => Tells::Done("no notes for "@ + slug@ + " yet"@),
        },
{
    match notes {
        Some(notes) => Told::Done(notes),
        None => Told::Done("no notes for ".to_owned().concat(slug).concat(" yet")),
    }
}

/// Turns an account off or back on.
pub fn set_user_active(accounts: &mut Accounts, email: &str, active: bool) -> (r: Told)
    ensures
        old(accounts).wf() ==> final(accounts).wf(),
        if old(accounts).by_email(normal(email@)) is Some {
            activity_set(
                *old(accounts),
                *final(accounts),
                first_from(old(accounts).users@, has_email(normal(email@)), 0),
                active,
            ) && r@ == Tells::Done(
                email@ + if active {
                    " is active again"@
                } else {
                    " is disabled; its sessions are gone"@
                },
            )
        } else {
            *final(accounts) == *old(accounts) && r@ == Tells::Refused(no_account(email@))
        },
{
    match set_active(accounts, email, active) {
        Ok(_) => Told::Done(
            email.to_owned().concat(
                if active {
                    " is active again"
                } else {
                    " is disabled; its sessions are gone"
                },
            ),
        ),
        Err(m) => Told::Refused(m),
    }
}

/// An account's access to an app, to give or to take.
pub struct AccessRequest {
    pub app: String,
    pub email: String,
    pub allow: Option<bool>,
    pub role: Option<String>,
}

/// What giving or taking access does.
pub open spec fn access_set(
    before: Accounts,
    after: Accounts,
    request: AccessRequest,
    told: Tells,
) -> bool {
    let account = before.by_email(normal(request.email@));
    if !is_slug(request.app@) {
        after == before && told == Tells::Refused(BAD_APP@)
    } else if chosen(request.allow, true) {
        match account {
            Some(a) => grant_made(
                before,
                after,
                a.id@,
                request.app@,
                match request.role {
                    Some(role) => role@,
                    None => "viewer"@,
                },
            ) && told == Tells::Done(request.email@ + " can now reach "@ + request.app@),
            None => after == before && told == Tells::Refused(no_account(request.email@)),
        }
    } else {
        &&& only_grants_change(before, after)
        &&& after.grants@ == before.grants@.filter(
            |g: Grant| outlives(g, account, request.app@),
        )
        &&& told == Tells::Done(request.email@ + " can no longer reach "@ + request.app@)
    }
}

/// Gives or takes away one account's access to one app.
pub fn set_access(accounts: &mut Accounts, request: &AccessRequest) -> (r: Told)
    ensures
        old(accounts).wf() ==> final(accounts).wf(),
        access_set(*old(accounts), *final(accounts), *request, r@),
{
    if !valid_slug(request.app.as_str()) {
        return Told::Refused(BAD_APP.to_owned());
    }
    let allow: bool = match request.allow {
        Some(b) => b,
        None => true,
    };
    if allow {
        let role: &str = match &request.role {
            Some(role) => role.as_str(),
            None => "viewer",
        };
        match grant(accounts, request.email.as_str(), request.app.as_str(), role) {
            Ok(_) => Told::Done(
                request.email.clone().concat(" can now reach ").concat(request.app.as_str()),
            ),
            Err(m) => Told::Refused(m),
        }
    } else {
        revoke(accounts, request.email.as_str(), request.app.as_str());
        Told::Done(
            request.email.clone().concat(" can no longer reach ").concat(request.app.as_str()),
        )
    }
}

/// A page as it is listed.
pub struct Listing {
    pub slug: String,
    pub title: Option<String>,
    /// When it changed, in seconds of the clock.
    pub modified: Option<u64>,
    pub listed: bool,
    pub hidden: bool,
}

/// Whether a page is listed, all of them or only what a visitor would see.
pub open spec fn is_listed(all: bool) -> spec_fn(Listing) -> bool {
    |l: Listing| all || (!l.hidden && l.listed)
}

/// When a page changed; never counts as the beginning of the clock.
pub open spec fn changed(l: Listing) -> u64 {
    match l.modified {
        Some(t) => t,
        None => 0,
    }
}

/// The order that pages are listed in, most recently touched first: that's what
/// a follow-up edit is after.
pub open spec fn newest_first() -> spec_fn(Listing, Listing) -> bool {
    |a: Listing, b: Listing| changed(a) >= changed(b)
}

/// A truth value in JSON.
pub open spec fn bool_json(b: bool) -> Seq<char> {
    if b {
        "true"@
    } else {
        "false"@
    }
}

/// A truth value in JSON.
fn bool_text(b: bool) -> (r: &'static str)
    ensures
        r@ == bool_json(b),
{
    if b {
        "true"
    } else {
        "false"
    }
}

/// A page in JSON.
pub open spec fn listing_json(config: Config, l: Listing, now: u64) -> Seq<char> {
    "{\"hidden\":"@ + bool_json(l.hidden) + ",\"listed\":"@ + bool_json(l.listed)
        + ",\"modified\":"@ + match l.modified {
        Some(t) => json_string(
            age(
                if t <= now {
                    (now - t) as nat
                } else {
                    0
                },
            ),
        ),
        None => "null"@,
    } + ",\"modified_epoch\":"@ + match l.modified {
        Some(t) => digits(t as nat),
        None => "null"@,
    } + ",\"slug\":"@ + json_string(l.slug@) + ",\"title\":"@ + match l.title {
        Some(title) => json_string(title@),
        None => "null"@,
    } + ",\"url\":"@ + json_string(page_url_of(config, l.slug@)) + "}"@
}

/// A page in JSON.
fn listing_text(config: &Config, l: &Listing, now: u64) -> (r: String)
    ensures
        r@ == listing_json(*config, *l, now),
{
    let modified: String = match l.modified {
        Some(t) => json_quote(relative_time(t, now).as_str()),
        None => "null".to_owned(),
    };
    let epoch: String = match l.modified {
        Some(t) => decimal(t),
        None => "null".to_owned(),
    };
    let title: String = match &l.title {
        Some(title) => json_quote(title.as_str()),
        None => "null".to_owned(),
    };
    "{\"hidden\":".to_owned().concat(bool_text(l.hidden)).concat(",\"listed\":").concat(
        bool_text(l.listed),
    ).concat(",\"modified\":").concat(modified.as_str()).concat(",\"modified_epoch\":").concat(
        epoch.as_str(),
    ).concat(",\"slug\":").concat(json_quote(l.slug.as_str()).as_str()).concat(
        ",\"title\":",
    ).concat(title.as_str()).concat(",\"url\":").concat(
        json_quote(page_url(config, l.slug.as_str()).as_str()).as_str(),
    ).concat("}")
}

/// What is told of pages in the order they are listed in.
pub open spec fn told_pages(config: Config, rows: Seq<Listing>, now: u64) -> Tells {
    if rows.len() == 0 {
        Tells::Done("no pages published yet"@)
    } else {
        Tells::Done(list_json(rows.map_values(|l: Listing| listing_json(config, l, now))))
    }
}

/// Lists pages: only what a visitor would see, unless all of them are asked for.
pub fn list_pages(config: &Config, pages: Vec<Listing>, include_all: Option<bool>, now: u64) -> (r:
    Told)
    ensures
        exists|rows: Seq<Listing>|
            is_ordered_from(
                rows,
                pages@.filter(is_listed(chosen(include_all, false))),
                newest_first(),
            ) && r@ == #[trigger] told_pages(*config, rows, now),
{
    let all: bool = match include_all {
        Some(b) => b,
        None => false,
    };
    let ghost given = pages@;
    let mut rows = pages;
    let test = |l: &Listing| -> (b: bool)
        ensures
            b == (all || (!l.hidden && l.listed))
    {
        all || (!l.hidden && l.listed)
    };
    keep(&mut rows, test, Ghost(is_listed(all)));
    let newer = |a: &Listing, b: &Listing| -> (r: bool)
        ensures
            r == (changed(*a) >= changed(*b))
    {
        let x: u64 = match a.modified {
            Some(t) => t,
            None => 0,
        };
        let y: u64 = match b.modified {
            Some(t) => t,
            None => 0,
        };
        x >= y
    };
    assert(is_order(newest_first()));
    let rows = put_in_order(rows, newer, Ghost(newest_first()));
    let mut items: Vec<String> = Vec::new();
    let mut i: usize = 0;
    while i < rows.len()
        invariant
            i <= rows.len(),
            items.len() == i,
            forall|j: int|
                0 <= j < i ==> (#[trigger] items@[j])@ == listing_json(*config, rows@[j], now),
        decreases rows.len() - i,
    {
        items.push(listing_text(config, &rows[i], now));
        i += 1;
    }
    assert(texts(items@) =~= rows@.map_values(|l: Listing| listing_json(*config, l, now)));
    let told = if rows.len() == 0 {
        Told::Done("no pages published yet".to_owned())
    } else {
        Told::Done("[".to_owned().concat(join(&items, ",").as_str()).concat("]"))
    };
    assert(told@ == told_pages(*config, rows@, now));
    told
}

/// What to change of who sees a page.
pub struct SetVisibilityRequest {
    pub slug: String,
    pub hidden: Option<bool>,
    pub listed: Option<bool>,
    pub gate: Option<String>,
    pub path: Option<String>,
}

/// Whether a rule is for another part of an app.
pub open spec fn elsewhere_than(prefix: Seq<char>) -> spec_fn(PathRule) -> bool {
    |rule: PathRule| rule.prefix@ != prefix
}

/// Why nothing is changed of who sees a page.
pub open spec fn visibility_refusal(
    request: SetVisibilityRequest,
    exists_page: bool,
    meta: PageMeta,
) -> Option<Seq<char>> {
    if !is_slug(request.slug@) {
        Some(BAD_SLUG@)
    } else if request.hidden is None && request.listed is None && request.gate is None
        && request.path is None {
        Some("pass hidden, listed or gate"@)
    } else if request.gate is Some && !is_gate(request.gate->0@) {
        Some("gate must be 'public', 'authenticated' or 'granted'"@)
    } else if !exists_page {
        Some("no page found for slug '"@ + request.slug@ + "'"@)
    } else if request.path is Some && request.gate is None && meta.rules@.filter(
        elsewhere_than(request.path->0@),
    ).len() == meta.rules.len() {
        Some(request.slug@ + " has no rule for "@ + request.path->0@)
    } else {
        None
    }
}

/// Whether what is kept of a page changed as asked.
pub open spec fn visibility_set(
    before: PageMeta,
    after: PageMeta,
    request: SetVisibilityRequest,
) -> bool {
    &&& after.hidden == chosen(request.hidden, before.hidden)
    &&& after.listed == chosen(request.listed, before.listed)
    &&& after.spa == before.spa
    &&& after.allow_http == before.allow_http
    &&& match (request.path, request.gate) {
        // A rule for one corner of the app.
        (Some(prefix), Some(gate)) => {
            &&& after.gate == before.gate
            &&& after.rules.len() > 0
            &&& after.rules@.drop_last() == before.rules@.filter(elsewhere_than(prefix@))
            &&& after.rules@.last().prefix@ == prefix@
            &&& after.rules@.last().gate@ == gate@
        },
        (Some(prefix), None) => after.gate == before.gate && after.rules@ == before.rules@.filter(
            elsewhere_than(prefix@),
        ),
        (None, Some(gate)) => after.gate@ == gate@ && after.rules == before.rules,
        (None, None) => after.gate == before.gate && after.rules == before.rules,
    }
}

/// How the rules of a page are told.
pub open spec fn told_rules(rules: Seq<PathRule>) -> Seq<char> {
    if rules.len() == 0 {
        ""@
    } else {
        " ("@ + joined(
            rules.map_values(|rule: PathRule| rule.prefix@ + " is "@ + rule.gate@),
            ", "@,
        ) + ")"@
    }
}

/// How it is told who sees a page.
pub open spec fn told_visibility(config: Config, slug: Seq<char>, meta: PageMeta) -> Tells {
    Tells::Done(
        slug + ": "@ + if meta.hidden {
            "hidden (URL returns 404; set hidden=false to restore)"@
        } else if meta.listed {
            "live and listed at "@ + page_url_of(config, slug) + told_rules(meta.rules@)
        } else {
            "live but unlisted at "@ + page_url_of(config, slug) + told_rules(meta.rules@)
        },
    )
}

/// How the rules of a page are told.
fn rules_text(rules: &Vec<PathRule>) -> (r: String)
    ensures
        r@ == told_rules(rules@),
{
    if rules.len() == 0 {
        return "".to_owned();
    }
    let mut items: Vec<String> = Vec::new();
    let mut i: usize = 0;
    while i < rules.len()
        invariant
            i <= rules.len(),
            items.len() == i,
            forall|j: int|
                0 <= j < i ==> (#[trigger] items@[j])@ == rules@[j].prefix@ + " is "@
                    + rules@[j].gate@,
        decreases rules.len() - i,
    {
        items.push(rules[i].prefix.clone().concat(" is ").concat(rules[i].gate.as_str()));
        i += 1;
    }
    assert(texts(items@) =~= rules@.map_values(
        |rule: PathRule| rule.prefix@ + " is "@ + rule.gate@,
    ));
    " (".to_owned().concat(join(&items, ", ").as_str()).concat(")")
}

/// How it is told who sees a page.
fn visibility_text(config: &Config, slug: &str, meta: &PageMeta) -> (r: Told)
    ensures
        r@ == told_visibility(*config, slug@, *meta),
{
    let state: String = if meta.hidden {
        "hidden (URL returns 404; set hidden=false to restore)".to_owned()
    } else if meta.listed {
        "live and listed at ".to_owned().concat(page_url(config, slug).as_str()).concat(
            rules_text(&meta.rules).as_str(),
        )
    } else {
        "live but unlisted at ".to_owned().concat(page_url(config, slug).as_str()).concat(
            rules_text(&meta.rules).as_str(),
        )
    };
    Told::Done(slug.to_owned().concat(": ").concat(state.as_str()))
}

/// Takes a page down or restores it, controls whether it appears on the site
/// index, and who may reach it or a part of it: what is then kept of it, and
/// what the agent is told, or why nothing changes. Nothing is ever deleted, so
/// this is the safe way to retract a page published by mistake.
pub fn set_visibility(
    config: &Config,
    request: &SetVisibilityRequest,
    exists_page: bool,
    meta: PageMeta,
) -> (r: Result<(PageMeta, Told), Told>)
    ensures
        match visibility_refusal(*request, exists_page, meta) {
            Some(why) => r matches Err(told) && told@ == Tells::Refused(why),
            None => {
                &&& r matches Ok((after, told))
                &&& visibility_set(meta, after, *request)
                &&& told@ == told_visibility(*config, request.slug@, after)
            },
        },
{
    let slug = request.slug.as_str();
    if !valid_slug(slug) {
        return Err(Told::Refused(BAD_SLUG.to_owned()));
    }
    if request.hidden.is_none() && request.listed.is_none() && request.gate.is_none()
        && request.path.is_none() {
        return Err(Told::Refused("pass hidden, listed or gate".to_owned()));
    }
    if let Some(gate) = &request.gate {
        if !valid_gate(gate.as_str()) {
            return Err(
                Told::Refused("gate must be 'public', 'authenticated' or 'granted'".to_owned()),
            );
        }
    }
    if !exists_page {
        return Err(
            Told::Refused("no page found for slug '".to_owned().concat(slug).concat("'")),
        );
    }
    let PageMeta { listed, hidden, spa, gate: old_gate, rules: old_rules, allow_http } = meta;
    let hidden: bool = match request.hidden {
        Some(b) => b,
        None => hidden,
    };
    let listed: bool = match request.listed {
        Some(b) => b,
        None => listed,
    };
    let mut gate: String = old_gate;
    let mut rules: Vec<PathRule> = old_rules;
    if let Some(prefix) = &request.path {
        let before: usize = rules.len();
        let wanted = prefix.as_str();
        let test = |rule: &PathRule| -> (b: bool)
            ensures
                b == (rule.prefix@ != wanted@)
        {
            !same(rule.prefix.as_str(), wanted)
        };
        keep(&mut rules, test, Ghost(elsewhere_than(wanted@)));
        match &request.gate {
            Some(chosen_gate) => {
                let ghost others = rules@;
                rules.push(PathRule { prefix: prefix.clone(), gate: chosen_gate.clone() });
                assert(rules@.drop_last() =~= others);
            },
            None => {
                if rules.len() == before {
                    return Err(
                        Told::Refused(
                            slug.to_owned().concat(" has no rule for ").concat(wanted),
                        ),
                    );
                }
            },
        }
    } else if let Some(chosen_gate) = &request.gate {
        gate = chosen_gate.clone();
    }
    let after = PageMeta { listed, hidden, spa, gate, rules, allow_http };
    let told = visibility_text(config, slug, &after);
    Ok((after, told))
}

/// An icon to write, and what the agent is told once it is written.
pub struct IconWrite {
    pub path: String,
    pub icon: String,
    pub told: Told,
}

/// Why an icon is not set.
pub open spec fn icon_refusal(slug: Seq<char>, icon: Seq<char>, exists_page: bool) -> Option<
    Seq<char>,
> {
    if !is_slug(slug) {
        Some(BAD_SLUG@)
    } else if trimmed(icon).len() == 0 {
        Some("icon must not be empty"@)
    } else if encode_utf8(trimmed(icon)).len() > MAX_ICON_BYTES {
        Some("icon must be under 1024 KB"@)
    } else if !exists_page {
        Some("no page found for slug '"@ + slug + "'; publish the page first"@)
    } else {
        None
    }
}

/// Sets the icon of a page. It sits beside the page's file, matching however
/// that page was resolved: `direct` says that the page is a file of its own.
pub fn set_icon(config: &Config, slug: &str, icon: &str, direct: bool, exists_page: bool) -> (r:
    Result<IconWrite, Told>)
    ensures
        match r {
            Ok(write) => {
                &&& icon_refusal(slug@, icon@, exists_page) is None
                &&& write.icon@ == trimmed(icon@)
                &&& write.path@ == if direct {
                    beside(*config, slug@, ".icon"@)
                } else {
                    beside(*config, slug@, "/index.icon"@)
                }
                &&& write.told@ == Tells::Done("icon set for "@ + page_url_of(*config, slug@))
            },
            Err(told) => match icon_refusal(slug@, icon@, exists_page) {
                Some(why) => told@ == Tells::Refused(why),
                None => false,
            },
        },
{
    if !valid_slug(slug) {
        return Err(Told::Refused(BAD_SLUG.to_owned()));
    }
    let icon = trim(icon);
    if icon.as_str().is_empty() {
        return Err(Told::Refused("icon must not be empty".to_owned()));
    }
    if icon.as_str().as_bytes().len() > MAX_ICON_BYTES {
        return Err(Told::Refused("icon must be under 1024 KB".to_owned()));
    }
    if !exists_page {
        return Err(
            Told::Refused(
                "no page found for slug '".to_owned().concat(slug).concat(
                    "'; publish the page first",
                ),
            ),
        );
    }
    let path: String = if direct {
        file_beside(config, slug, ".icon")
    } else {
        file_beside(config, slug, "/index.icon")
    };
    let told = Told::Done("icon set for ".to_owned().concat(page_url(config, slug).as_str()));
    Ok(IconWrite { path, icon, told })
}

/// The directory whose pages an app consists of, or why there are none.
pub fn pull_app(config: &Config, app: &str) -> (r: Result<String, Told>)
    ensures
        match r {
            Ok(path) => is_segment(app@) && path@ == inside(config.data_dir@, app@),
            Err(told) => !is_segment(app@) && told@ == Tells::Refused(BAD_NAMESPACE@),
        },
{
    if !valid_segment(app) {
        return Err(Told::Refused(BAD_NAMESPACE.to_owned()));
    }
    Ok(join_path(config.data_dir.as_str(), app))
}

/// The name of the page that a file holds, if it holds one.
pub fn page_in_file(file: &str) -> (r: Option<String>)
    ensures
        match r {
            Some(name) => name@.len() > 0 && file@ == name@ + ".html"@,
            None => !(".html"@.is_suffix_of(file@) && file@.len() > ".html"@.len()),
        },
{
    match strip_suffix(file, ".html") {
        Some(name) => {
            assert(file@ =~= name@ + ".html"@);
            if name.as_str().is_empty() {
                None
            } else {
                Some(name)
            }
        },
        None => None,
    }
}

/// Pages in JSON: each by its name.
pub open spec fn pages_json(pages: Seq<(Seq<char>, Seq<char>)>) -> Seq<char> {
    "{"@ + joined(
        pages.map_values(
            |p: (Seq<char>, Seq<char>)| json_string(p.0) + ":"@ + json_string(p.1),
        ),
        ","@,
    ) + "}"@
}

/// What is told of the pages of an app that were read.
pub fn app_pulled(app: &str, pages: &Vec<(String, String)>) -> (r: Told)
    ensures
        r@ == if pages.len() == 0 {
            Tells::Refused("no pages found for app '"@ + app@ + "'"@)
        } else {
            Tells::Done(pages_json(pairs(pages@)))
        },
{
    if pages.len() == 0 {
        return Told::Refused("no pages found for app '".to_owned().concat(app).concat("'"));
    }
    let ghost all = pairs(pages@);
    let mut items: Vec<String> = Vec::new();
    let mut i: usize = 0;
    while i < pages.len()
        invariant
            i <= pages.len(),
            items.len() == i,
            all == pairs(pages@),
            forall|j: int|
                0 <= j < i ==> (#[trigger] items@[j])@ == json_string(all[j].0) + ":"@
                    + json_string(all[j].1),
        decreases pages.len() - i,
    {
        assert(all[i as int] == (pages@[i as int].0@, pages@[i as int].1@));
        items.push(
            json_quote(pages[i].0.as_str()).concat(":").concat(
                json_quote(pages[i].1.as_str()).as_str(),
            ),
        );
        i += 1;
    }
    assert(texts(items@) =~= all.map_values(
        |p: (Seq<char>, Seq<char>)| json_string(p.0) + ":"@ + json_string(p.1),
    ));
    Told::Done("{".to_owned().concat(join(&items, ",").as_str()).concat("}"))
}

/// Hiding a page and bringing it back leaves what is kept of it as it was.
pub proof fn hiding_destroys_nothing(
    before: PageMeta,
    between: PageMeta,
    after: PageMeta,
    hide: SetVisibilityRequest,
    show: SetVisibilityRequest,
)
    requires
        !before.hidden,
        hide.hidden == Some(true) && hide.listed is None && hide.gate is None && hide.path is None,
        show.hidden == Some(false) && show.listed is None && show.gate is None && show.path is None,
        visibility_set(before, between, hide),
        visibility_set(between, after, show),
    ensures
        between.hidden,
        after == before,
{
}

/// A rule for a part of an app replaces the one there was, and no other; asking
/// for it to be dropped then leaves the others.
pub proof fn one_rule_for_each_part(
    before: PageMeta,
    between: PageMeta,
    after: PageMeta,
    put: SetVisibilityRequest,
    dropped: SetVisibilityRequest,
    prefix: String,
)
    requires
        put.path == Some(prefix) && put.gate is Some,
        dropped.path == Some(prefix) && dropped.gate is None,
        visibility_set(before, between, put),
        visibility_set(between, after, dropped),
    ensures
        after.rules@ == before.rules@.filter(elsewhere_than(prefix@)),
{
    let f = elsewhere_than(prefix@);
    let others = before.rules@.filter(f);
    assert(between.rules@ =~= others.push(between.rules@.last()));
    reveal(Seq::filter);
    assert(!f(between.rules@.last()));
    lemma_filter_again(before.rules@, f);
    assert(between.rules@.filter(f) == between.rules@.drop_last().filter(f));
}

/// What a filter keeps, it keeps again.
proof fn lemma_filter_again<A>(s: Seq<A>, f: spec_fn(A) -> bool)
    ensures
        s.filter(f).filter(f) == s.filter(f),
    decreases s.len(),
{
    reveal(Seq::filter);
    if s.len() > 0 {
        lemma_filter_again(s.drop_last(), f);
        let kept = s.drop_last().filter(f);
        if f(s.last()) {
            assert(kept.push(s.last()).drop_last() =~= kept);
        }
    }
}

/// Settings never come back out: what is told of a request about them depends on
/// their names alone.
pub proof fn values_are_never_told(
    one: Map<Seq<char>, String>,
    other: Map<Seq<char>, String>,
    key: Seq<u8>,
    request: SecretRequest,
    told: Tells,
)
    requires
        one.dom() == other.dom(),
        request.name is None,
        settings_changed(one, one, key, request, told),
    ensures
        settings_changed(other, other, key, request, told),
{
    if is_slug(request.app@) {
        let listed = choose|listed: Seq<Seq<char>>|
            #![trigger in_order(listed)]
            in_order(listed) && listed.no_duplicates() && (forall|k: Seq<char>|
                listed.contains(k) == #[trigger] one.contains_key(k)) && told == Tells::Done(
                if listed.len() == 0 {
                    request.app@ + " has no settings"@
                } else {
                    request.app@ + ": "@ + joined(listed, ", "@)
                },
            );
        assert(in_order(listed));
        assert forall|k: Seq<char>| listed.contains(k) == #[trigger] other.contains_key(k) by {
            assert(listed.contains(k) == one.contains_key(k));
            assert(one.dom().contains(k) == other.dom().contains(k));
        }
    }
}

} // verus!
