//! What holds of uploads, jobs and of who may call: each law is about what a
//! function is handed and what it gives back.
use crate::accounts::web::header_value;
use crate::config::Config;
use crate::content::bundle::{labels, Unpacked};
use crate::content::serve::GuestRequest;
use crate::content::slug::{is_segment, is_slug};
use crate::content::store::{inside, PageMeta};
use crate::crypto::base64_decoded;
use crate::encode::{json_string, percent};
use crate::platform::bearer::{authorized, presented_token, require_bearer};
use crate::platform::client_oauth::{
    authorize_with, client_credentials, client_host, oauth_authorization_server_metadata,
    oauth_protected_resource_metadata, redirect_uri_allowed, text_of, token_endpoint, token_for,
    uri_host, AuthorizeParams, OAuth, TokenRequest,
};
use crate::platform::schedule::{
    apps_with_jobs, check_job, cron_next, due_jobs, is_due, job_guards, job_request, job_status,
    path_for, record_run, remove_job, rfc3339, run_job, set_job, Job, LAST_INSTANT, Running,
};
use crate::platform::upload::{
    app_name, bundle_unpacked, download, handler_checked, manifest_applied, mark_spa, migrated,
    migrations_read, page_read, source_read, store_upload, sweep, upload_kind, upload_query,
    upload_url, written, DownloadStep, Migrated, Unpacking, UploadKind, UploadQuery, UploadStep,
    UploadTicket,
};
use crate::reply::Reply;
use crate::table::Table;
use crate::text::{digits, find, joined, lemma_find, lowered, pairs, texts, trimmed};
use vstd::prelude::*;
use vstd::utf8::{decode_utf8, valid_utf8};

verus! {

/// A job that is still running is not started again; once it is finished it is.
pub proof fn a_slow_job_is_not_stacked(running: &mut Running, app: &str, name: &str, r: bool)
    requires
        call_ensures(Running::start, (running, app, name), r),
    ensures
        r == !old(running)@.contains(app@ + ":"@ + name@),
        final(running)@.contains(app@ + ":"@ + name@),
        forall|k: Seq<char>| k != app@ + ":"@ + name@ ==> #[trigger] final(running)@.contains(k)
            == old(running)@.contains(k),
{
}

/// A job that is finished is no longer running.
pub proof fn a_finished_job_may_start_again(running: &mut Running, app: &str, name: &str)
    requires
        call_ensures(Running::finish, (running, app, name), ()),
    ensures
        !final(running)@.contains(app@ + ":"@ + name@),
        forall|k: Seq<char>| k != app@ + ":"@ + name@ ==> #[trigger] final(running)@.contains(k)
            == old(running)@.contains(k),
{
}

/// A job that missed its turn while the server was down still fires once: it is
/// due as soon as the first time after its last run has come, however long ago that
/// run was; and not before.
pub proof fn a_missed_run_is_made_up(job: Job, last: u64, next: i64, at: u64, r: bool)
    requires
        job.last_run == Some(last),
        last <= i64::MAX,
        cron_next(job.schedule@, last as i64) == Ok::<Option<i64>, Seq<char>>(Some(next)),
        0 <= next,
        call_ensures(is_due, (&job, at), r),
    ensures
        r == (next <= at),
{
}

/// A job that never ran looks back over one tick of thirty seconds only: making a
/// job does not set it off for times that were before it.
pub proof fn a_new_job_looks_back_one_tick(job: Job, next: i64, at: u64, r: bool)
    requires
        job.last_run is None,
        30 <= at <= i64::MAX,
        cron_next(job.schedule@, (at - 30) as i64) == Ok::<Option<i64>, Seq<char>>(Some(next)),
        0 <= next,
        call_ensures(is_due, (&job, at), r),
    ensures
        r == (next <= at),
{
}

/// A job that is due stays due until it runs.
pub proof fn a_job_stays_due(job: Job, at: u64, later: u64, r: bool, s: bool)
    requires
        job.last_run is Some,
        at <= later,
        call_ensures(is_due, (&job, at), r),
        call_ensures(is_due, (&job, later), s),
    ensures
        r ==> s,
{
}

/// A job is due by its schedule and its last run alone; one whose schedule never
/// fires is never due.
pub proof fn only_a_schedule_makes_a_job_due(job: Job, last: u64, at: u64, r: bool)
    requires
        job.last_run == Some(last),
        last <= i64::MAX,
        call_ensures(is_due, (&job, at), r),
        r,
    ensures
        cron_next(job.schedule@, last as i64) matches Ok(t) && t is Some,
{
}

/// The jobs that are run are those that are due, each once.
pub proof fn every_due_job_is_run(
    jobs: Table<Job>,
    name: Seq<char>,
    last: u64,
    next: i64,
    at: u64,
    r: Vec<String>,
)
    requires
        call_ensures(due_jobs, (&jobs, at), r),
        jobs@.contains_key(name),
        jobs@[name].last_run == Some(last),
        last <= i64::MAX,
        last != LAST_INSTANT,
        cron_next(jobs@[name].schedule@, last as i64) == Ok::<Option<i64>, Seq<char>>(Some(next)),
        0 <= next,
    ensures
        texts(r@).contains(name) == (next <= at),
        texts(r@).no_duplicates(),
{
    assert(jobs@.contains_key(name));
}

/// A job is accepted where its name is one part of a slug, its path begins with a
/// slash and its schedule fires again; it is then told when it does.
pub proof fn which_jobs_are_accepted(
    name: &str,
    schedule: &str,
    path: &str,
    now: i64,
    r: Result<i64, String>,
)
    requires
        call_ensures(check_job, (name, schedule, path, now), r),
    ensures
        r is Ok == (is_segment(name@) && "/"@.is_prefix_of(path@) && (cron_next(
            schedule@,
            now,
        ) matches Ok(t) && t is Some)),
        r matches Ok(next) ==> cron_next(schedule@, now) == Ok::<Option<i64>, Seq<char>>(Some(next)),
{
}

/// Setting a job keeps every other; what is kept of it is its schedule and its path,
/// and that it has not run. A refused job changes nothing.
pub proof fn setting_a_job_keeps_the_others(
    jobs: &mut Table<Job>,
    app: &str,
    name: &str,
    schedule: &str,
    path: &str,
    now: i64,
    r: Result<String, String>,
    k: Seq<char>,
)
    requires
        call_ensures(set_job, (jobs, app, name, schedule, path, now), r),
        k != name@,
    ensures
        final(jobs)@.contains_key(k) == old(jobs)@.contains_key(k),
        old(jobs)@.contains_key(k) ==> final(jobs)@[k] == old(jobs)@[k],
        r is Ok ==> final(jobs)@.contains_key(name@) && final(jobs)@[name@].schedule@ == schedule@
            && final(jobs)@[name@].path@ == path@ && final(jobs)@[name@].last_run is None,
        r is Err ==> final(jobs)@ == old(jobs)@,
        r matches Ok(said) ==> exists|next: i64|
            cron_next(schedule@, now) == Ok::<Option<i64>, Seq<char>>(Some(next)) && (
            #[trigger] rfc3339(next) matches Some(t) ==> said@ == "next run "@ + t),
{
    if r is Ok {
        let next = (cron_next(schedule@, now)->Ok_0)->0;
        assert(cron_next(schedule@, now) == Ok::<Option<i64>, Seq<char>>(Some(next)));
        let told = rfc3339(next);
        let a = final(jobs)@;
        let b = old(jobs)@;
        assert(a.remove(name@).contains_key(k) == a.contains_key(k));
        assert(b.remove(name@).contains_key(k) == b.contains_key(k));
        if b.contains_key(k) {
            assert(a.remove(name@)[k] == a[k]);
            assert(b.remove(name@)[k] == b[k]);
        }
    }
}

/// Taking a job away takes that one, and is an error where there is none.
pub proof fn taking_a_job_away_takes_that_one(
    jobs: &mut Table<Job>,
    app: &str,
    name: &str,
    r: Result<(), String>,
    k: Seq<char>,
)
    requires
        call_ensures(remove_job, (jobs, app, name), r),
        k != name@,
    ensures
        r is Ok == old(jobs)@.contains_key(name@),
        !final(jobs)@.contains_key(name@),
        final(jobs)@.contains_key(k) == old(jobs)@.contains_key(k),
        old(jobs)@.contains_key(k) ==> final(jobs)@[k] == old(jobs)@[k],
{
}

/// What is recorded of a run is when it was and how it ended, of that job alone.
pub proof fn a_run_is_recorded(
    jobs: &mut Table<Job>,
    name: &str,
    status: &str,
    now: u64,
    k: Seq<char>,
)
    requires
        call_ensures(record_run, (jobs, name, status, now), ()),
        old(jobs)@.contains_key(name@),
        k != name@,
    ensures
        final(jobs)@[name@].last_run == Some(now),
        final(jobs)@[name@].last_status matches Some(s) && s@ == status@,
        final(jobs)@[name@].schedule@ == old(jobs)@[name@].schedule@,
        final(jobs)@[name@].path@ == old(jobs)@[name@].path@,
        final(jobs)@.contains_key(k) == old(jobs)@.contains_key(k),
        old(jobs)@.contains_key(k) ==> final(jobs)@[k] == old(jobs)@[k],
{
    let a = final(jobs)@;
    let b = old(jobs)@;
    assert(a.remove(name@).contains_key(k) == a.contains_key(k));
    assert(b.remove(name@).contains_key(k) == b.contains_key(k));
    if b.contains_key(k) {
        assert(a.remove(name@)[k] == a[k]);
        assert(b.remove(name@)[k] == b[k]);
    }
}

/// A job is a request to the app's own route that says it comes from the clock; it
/// runs where there is such a job and a handler to run it.
pub proof fn a_job_is_a_request_to_its_route(
    jobs: Table<Job>,
    app: &str,
    name: &str,
    has_handler: bool,
    r: Result<GuestRequest, String>,
)
    requires
        call_ensures(run_job, (&jobs, app, name, has_handler), r),
    ensures
        r is Ok == (jobs@.contains_key(name@) && has_handler),
        r matches Ok(g) ==> g.path@ == jobs@[name@].path@ && g.method@ == "GET"@ && g.body.len() == 0
            && g.headers.len() == 1 && g.headers@[0].0@ == "x-toolsite-scheduled"@
            && g.headers@[0].1@ == name@,
{
}

/// An app has jobs where there is a file of that name that ends in `.jobs`.
pub proof fn apps_are_found_by_their_files(
    files: Vec<String>,
    r: Vec<String>,
    app: Seq<char>,
)
    requires
        call_ensures(apps_with_jobs, (&files,), r),
    ensures
        texts(r@).contains(app) == texts(files@).contains(app + ".jobs"@),
{
    lemma_app_files(texts(files@), app);
}

/// Which apps are among some files.
proof fn lemma_app_files(files: Seq<Seq<char>>, app: Seq<char>)
    ensures
        crate::platform::schedule::app_files(files).contains(app) == files.contains(
            app + ".jobs"@,
        ),
    decreases files.len(),
{
    let name = app + ".jobs"@;
    if files.len() > 0 {
        let front = files.drop_last();
        let last = files.last();
        lemma_app_files(front, app);
        assert(files =~= front.push(last));
        lemma_push(front, last, name);
        let found = crate::platform::schedule::app_files(front);
        assert(name.subrange(app.len() as int, name.len() as int) =~= ".jobs"@);
        assert(name.take(app.len() as int) =~= app);
        if ".jobs"@.is_suffix_of(last) {
            let stem = last.take(last.len() - ".jobs"@.len());
            assert(last =~= stem + ".jobs"@);
            lemma_push(found, stem, app);
        }
    }
}

/// What a list holds with one more at its end.
proof fn lemma_push<A>(s: Seq<A>, y: A, x: A)
    ensures
        s.push(y).contains(x) == (s.contains(x) || x == y),
{
    if s.contains(x) {
        let i = s.index_of(x);
        assert(s.push(y)[i] == x);
    }
    if x == y {
        assert(s.push(y)[s.len() as int] == x);
    }
    if s.push(y).contains(x) && x != y {
        let i = s.push(y).index_of(x);
        assert(s[i] == x);
    }
}

/// What an upload is by its flags: a flag alone is what it says, and of several the
/// one that changes most of an app counts; without one it is a page.
pub proof fn flags_say_what_an_upload_is(q: UploadQuery, r: UploadKind)
    requires
        call_ensures(upload_kind, (&q,), r),
    ensures
        q.migrations == (r == UploadKind::Migrations),
        !q.migrations ==> q.manifest == (r == UploadKind::Manifest),
        !q.migrations && !q.manifest ==> q.source == (r == UploadKind::Source),
        !q.migrations && !q.manifest && !q.source ==> q.handler == (r == UploadKind::Handler),
        !q.migrations && !q.manifest && !q.source && !q.handler ==> q.bundle == (r == (
        UploadKind::Bundle { spa: q.spa })),
        !q.migrations && !q.manifest && !q.source && !q.handler && !q.bundle ==> q.icon == (r
            == UploadKind::Icon),
        !q.migrations && !q.manifest && !q.source && !q.handler && !q.bundle && !q.icon ==> r
            == UploadKind::Page,
{
}

/// The flags that are read are those that were given: each is set where its name is
/// there and not set where it is not; a name that is none, and one that is there
/// twice, refuses them all.
pub proof fn flags_are_read_as_given(
    flags: Vec<String>,
    r: Result<UploadQuery, Reply>,
    i: int,
    j: int,
)
    requires
        call_ensures(upload_query, (&flags,), r),
        0 <= i < flags.len(),
        0 <= j < flags.len(),
    ensures
        r matches Ok(q) ==> {
            &&& q.icon == texts(flags@).contains("icon"@)
            &&& q.bundle == texts(flags@).contains("bundle"@)
            &&& q.spa == texts(flags@).contains("spa"@)
            &&& q.handler == texts(flags@).contains("handler"@)
            &&& q.source == texts(flags@).contains("source"@)
            &&& q.manifest == texts(flags@).contains("manifest"@)
            &&& q.migrations == texts(flags@).contains("migrations"@)
        },
        i != j && flags@[i]@ == flags@[j]@ ==> r is Err,
        r is Ok ==> flags@[i]@ == "icon"@ || flags@[i]@ == "bundle"@ || flags@[i]@ == "spa"@
            || flags@[i]@ == "handler"@ || flags@[i]@ == "source"@ || flags@[i]@ == "manifest"@
            || flags@[i]@ == "migrations"@,
        r matches Err(reply) ==> reply.status == 400,
{
    let all = texts(flags@);
    assert(all[i] == flags@[i]@ && all[j] == flags@[j]@);
    if r is Ok {
        assert(crate::platform::upload::flag_fault(all, i) is None);
        assert(crate::platform::upload::flag_fault(all, j) is None);
        if i < j && all[i] == all[j] {
            assert(all.take(j)[i] == all[j]);
        } else if j < i && all[i] == all[j] {
            assert(all.take(i)[j] == all[i]);
        }
    }
}

/// Without a ticket that still works an upload is turned away.
pub proof fn an_upload_needs_a_live_ticket(
    config: &mut Config,
    now: u64,
    ticket: &str,
    sub: Option<&str>,
    kind: UploadKind,
    body: &[u8],
    r: UploadStep,
)
    requires
        call_ensures(store_upload, (config, now, ticket, sub, kind, body), r),
        !old(config).uploads@.contains_key(ticket@) || old(config).uploads@[ticket@].expires_at
            <= now,
    ensures
        r matches UploadStep::Answer(reply) && reply.status == 401,
{
}

/// A page is written at the slug of its ticket, or below it where a name is given;
/// so is an icon, up to a megabyte. A project is kept beside the app, and a bundle
/// is unpacked into it.
pub proof fn what_is_uploaded_goes_to_its_slug(
    config: &mut Config,
    now: u64,
    ticket: &str,
    kind: UploadKind,
    body: &[u8],
    slug: Seq<char>,
    app: &str,
    first: String,
    r: UploadStep,
)
    requires
        call_ensures(store_upload, (config, now, ticket, None, kind, body), r),
        call_ensures(app_name, (app,), first),
        app@ == slug,
        old(config).uploads@.contains_key(ticket@),
        old(config).uploads@[ticket@].expires_at > now,
        old(config).uploads@[ticket@].slug@ == slug,
        is_slug(slug),
        body@.len() > 0,
    ensures
        kind == UploadKind::Page && valid_utf8(body@) && trimmed(decode_utf8(body@)).len() > 0 ==> (
        r matches UploadStep::Write { path, done } && done.status == 200 && path@ == inside(
            old(config).data_dir@,
            slug + ".html"@,
        )),
        kind == UploadKind::Page && !valid_utf8(body@) ==> (r matches UploadStep::Answer(reply)
            && reply.status == 400),
        kind == UploadKind::Icon && body@.len() <= 1_048_576 ==> (r matches UploadStep::Write {
            path,
            done,
        } && done.status == 200 && path@ == inside(old(config).data_dir@, slug + ".icon"@)),
        kind == UploadKind::Icon && body@.len() > 1_048_576 ==> (r matches UploadStep::Answer(reply)
            && reply.status == 413),
        kind == UploadKind::Source && body@.len() <= 67_108_864 ==> (r matches UploadStep::Write {
            path,
            done,
        } && done.status == 200 && path@ == inside(old(config).data_dir@, first@ + ".source"@)),
        kind matches UploadKind::Bundle { spa } ==> (r matches UploadStep::Bundle {
            slug: s,
            dest,
            spa: marks,
        } && s@ == slug && dest@ == inside(old(config).data_dir@, slug) && marks == spa),
        kind == UploadKind::Handler ==> (r matches UploadStep::Handler { app: a } && a@ == first@),
        kind == UploadKind::Migrations ==> (r matches UploadStep::Migrations { app: a } && a@
            == first@),
        kind == UploadKind::Manifest && valid_utf8(body@) ==> (r matches UploadStep::Manifest {
            app: a,
            text,
        } && a@ == first@ && text@ == decode_utf8(body@)),
{
}

/// The app of a slug is its first part.
pub proof fn the_app_is_the_first_part(app: Seq<char>, rest: Seq<char>, slug: &str, r: String)
    requires
        !app.contains('/'),
        slug@ == app || slug@ == app + "/"@ + rest,
        call_ensures(app_name, (slug,), r),
    ensures
        r@ == app,
{
    reveal_strlit("/");
    assert("/"@ =~= seq!['/']);
    crate::text::lemma_split_whole(app, '/');
    crate::text::lemma_split_head(app, '/', rest);
    if slug@ == app + "/"@ + rest {
        assert(slug@ =~= app + seq!['/'] + rest);
    }
}

/// A name behind a ticket's URL is a page below its slug, with or without `.html`.
pub proof fn a_name_below_a_ticket_is_a_page_below_its_slug(
    config: &mut Config,
    now: u64,
    ticket: &str,
    name: Seq<char>,
    sub: &str,
    body: &[u8],
    slug: Seq<char>,
    r: UploadStep,
)
    requires
        call_ensures(store_upload, (config, now, ticket, Some(sub), UploadKind::Page, body), r),
        sub@ == name || sub@ == name + ".html"@,
        !".html"@.is_suffix_of(name),
        old(config).uploads@.contains_key(ticket@),
        old(config).uploads@[ticket@].expires_at > now,
        old(config).uploads@[ticket@].slug@ == slug,
        is_slug(slug + "/"@ + name),
        valid_utf8(body@),
        body@.len() > 0,
        trimmed(decode_utf8(body@)).len() > 0,
    ensures
        r matches UploadStep::Write { path, .. } && path@ == inside(
            old(config).data_dir@,
            slug + "/"@ + name + ".html"@,
        ),
{
    reveal_strlit(".html");
    let long = name + ".html"@;
    assert(long.subrange(name.len() as int, long.len() as int) =~= ".html"@);
    assert(long.take(name.len() as int) =~= name);
    assert(crate::text::without_suffixes(name, ".html"@) == name);
    assert(crate::text::without_suffixes(long, ".html"@) == crate::text::without_suffixes(
        name,
        ".html"@,
    ));
}

/// A ticket is forgotten when its time is over, and not before.
pub proof fn tickets_last_their_time(
    uploads: &mut Table<UploadTicket>,
    now: u64,
    k: Seq<char>,
)
    requires
        call_ensures(sweep, (uploads, now), ()),
        old(uploads)@.contains_key(k),
    ensures
        final(uploads)@.contains_key(k) == (old(uploads)@[k].expires_at > now),
        final(uploads)@.contains_key(k) ==> final(uploads)@[k] == old(uploads)@[k],
{
}

/// How an upload ended decides what is answered: done is 200, refused is 400, and
/// what broke off is 500.
pub proof fn how_an_upload_ended_is_told(
    config: Config,
    slug: &str,
    unpacking: Unpacking,
    bundle: Reply,
    count: u64,
    steps: Migrated,
    schema: Reply,
)
    requires
        call_ensures(bundle_unpacked, (&config, slug, unpacking), bundle),
        call_ensures(migrated, (slug, count, steps), schema),
    ensures
        unpacking is Done ==> bundle.status == 200,
        unpacking is Refused ==> bundle.status == 400,
        unpacking is Broken ==> bundle.status == 500,
        steps is Done ==> schema.status == 200,
        steps is Refused ==> schema.status == 400,
        steps is Broken ==> schema.status == 500,
        steps matches Migrated::Done { version, ran } ==> schema.body@ == slug@ + ": "@ + digits(
            count as nat,
        ) + " migration(s) stored, "@ + digits(ran as nat) + " applied, now at version "@ + digits(
            version as nat,
        ) + "\n"@,
        steps matches Migrated::Refused(m) ==> schema.body@ == m@ + "\n"@,
        unpacking matches Unpacking::Refused(m) ==> bundle.body@ == m@ + "\n"@,
        unpacking matches Unpacking::Done(u) && !texts(u.files@).contains("index.html"@) ==> (
        "warning: no index.html at the bundle root, so the app root will 404\n"@).is_suffix_of(
            bundle.body@,
        ),
{
    if let Unpacking::Done(u) = unpacking {
        let warning = "warning: no index.html at the bundle root, so the app root will 404\n"@;
        if !texts(u.files@).contains("index.html"@) {
            let body = bundle.body@;
            assert(body.subrange(body.len() - warning.len(), body.len() as int) =~= warning);
        }
    }
}

/// Marking an app as client-routed changes nothing else of it.
pub proof fn marking_an_app_keeps_the_rest(meta: PageMeta, r: PageMeta)
    requires
        call_ensures(mark_spa, (meta,), r),
    ensures
        r.spa,
        r.listed == meta.listed && r.hidden == meta.hidden && r.gate == meta.gate && r.rules
            == meta.rules && r.allow_http == meta.allow_http,
{
}

/// A handler is kept inside its app where it is one, and refused where it is none.
pub proof fn a_handler_goes_into_its_app(
    config: Config,
    app: &str,
    verdict: Result<(), String>,
    r: UploadStep,
)
    requires
        call_ensures(handler_checked, (&config, app, verdict), r),
    ensures
        verdict is Ok ==> (r matches UploadStep::Write { path, done } && done.status == 200 && path@
            == inside(config.data_dir@, app@ + "/handler.wasm"@)),
        verdict is Err ==> (r matches UploadStep::Answer(reply) && reply.status == 400),
{
}

/// A ticket reads back what it may write: the project or the page of its own slug.
pub proof fn a_ticket_reads_its_own_slug(
    config: &mut Config,
    now: u64,
    ticket: &str,
    source: bool,
    slug: Seq<char>,
    app: &str,
    first: String,
    r: DownloadStep,
)
    requires
        call_ensures(download, (config, now, ticket, source), r),
        call_ensures(app_name, (app,), first),
        app@ == slug,
        old(config).uploads@.contains_key(ticket@),
        old(config).uploads@[ticket@].slug@ == slug,
    ensures
        old(config).uploads@[ticket@].expires_at <= now ==> (r matches DownloadStep::Answer(reply)
            && reply.status == 401),
        old(config).uploads@[ticket@].expires_at > now && source ==> (r matches DownloadStep::Source {
            path,
            ..
        } && path@ == inside(old(config).data_dir@, first@ + ".source"@)),
        old(config).uploads@[ticket@].expires_at > now && !source ==> (r matches DownloadStep::Page {
            direct,
            index,
        } && direct@ == inside(old(config).data_dir@, slug + ".html"@) && index@ == inside(
            old(config).data_dir@,
            slug + "/index.html"@,
        )),
{
}

/// What is read is handed back as it is, and what is not there is a 404.
pub proof fn what_is_read_is_handed_back(
    html: Option<String>,
    app: &str,
    found: bool,
    page: Reply,
    source: Reply,
)
    requires
        call_ensures(page_read, (html,), page),
        call_ensures(source_read, (app, found), source),
    ensures
        html matches Some(text) ==> page.status == 200 && page.body@ == text@,
        html is None ==> page.status == 404,
        found ==> source.status == 200,
        !found ==> source.status == 404,
{
}

/// A call is let through where it presents a token that is configured, as a bearer
/// token or as an API key, and turned away with 401 otherwise; a call that presents
/// nothing is always turned away.
pub proof fn a_call_needs_a_configured_token(
    config: Config,
    headers: Vec<(String, String)>,
    token: Option<String>,
    r: bool,
    answer: Option<Reply>,
)
    requires
        call_ensures(presented_token, (&headers,), token),
        call_ensures(authorized, (&config, &headers), r),
        call_ensures(require_bearer, (&config, &headers), answer),
    ensures
        r == (token matches Some(t) && texts(config.valid_tokens@).contains(t@)),
        answer is None == r,
        answer matches Some(reply) ==> reply.status == 401 && reply.body@.len() == 0,
        answer matches Some(reply) ==> (config.base_url is None || config.oauth is None ==> pairs(
            reply.headers@,
        ).len() == 0),
        answer matches Some(reply) ==> (config.base_url matches Some(base) ==> config.oauth is Some
            ==> pairs(reply.headers@) == seq![
            (
                "www-authenticate"@,
                "Bearer resource_metadata=\""@ + base@
                    + "/.well-known/oauth-protected-resource\""@,
            ),
        ]),
        headers.len() == 0 ==> token is None,
{
}

/// A token behind `Bearer` goes before an API key, and an API key is looked at where
/// there is nothing behind `Bearer`.
pub proof fn a_bearer_token_goes_first(
    headers: Vec<(String, String)>,
    bearer: &str,
    key: &str,
    first: Option<&str>,
    second: Option<&str>,
    scheme: Seq<char>,
    t: Seq<char>,
    token: Option<String>,
)
    requires
        bearer@ == "authorization"@,
        key@ == "x-api-key"@,
        call_ensures(header_value, (&headers, bearer), first),
        call_ensures(header_value, (&headers, key), second),
        call_ensures(presented_token, (&headers,), token),
        !scheme.contains(' '),
    ensures
        (first matches Some(v) && v@ == scheme + " "@ + t) && lowered(scheme) == "bearer"@ ==> (
        token matches Some(x) && x@ == trimmed(t)),
        (first matches Some(v) && v@ == scheme + " "@ + t) && lowered(scheme) != "bearer"@ ==> (
        match second {
            Some(k) => token matches Some(x) && x@ == trimmed(k@),
            None => token is None,
        }),
        (first matches Some(v) && !v@.contains(' ')) || first is None ==> match second {
            Some(k) => token matches Some(x) && x@ == trimmed(k@),
            None => token is None,
        },
{
    reveal_strlit("bearer");
    reveal_strlit(" ");
    assert(lowered("bearer"@) =~= "bearer"@);
    if first matches Some(v) && v@ == scheme + " "@ + t {
        let value = first->0@;
        let n = scheme.len() as int;
        assert(value[n] == ' ');
        assert(value.contains(' '));
        lemma_find(value, ' ');
        let k = find(value, ' ');
        if k < n {
            assert(scheme[k] == ' ');
            assert(scheme.contains(' '));
        } else if n < k {
            assert(value.take(k)[n] == ' ');
        }
        assert(value.take(n) =~= scheme);
        assert(value.skip(n + 1) =~= t);
    }
}

/// How a token is presented: behind `Bearer`, whatever the case of the word, or by
/// itself as an API key; without the space around it.
pub proof fn how_a_token_is_presented(
    headers: Vec<(String, String)>,
    scheme: Seq<char>,
    t: Seq<char>,
    token: Option<String>,
)
    requires
        headers.len() == 1,
        call_ensures(presented_token, (&headers,), token),
        !scheme.contains(' '),
        lowered(scheme) == "bearer"@,
    ensures
        headers@[0].0@ == "authorization"@ && headers@[0].1@ == scheme + " "@ + t ==> (
        token matches Some(x) && x@ == trimmed(t)),
        headers@[0].0@ == "x-api-key"@ ==> (token matches Some(x) && x@ == trimmed(
            headers@[0].1@,
        )),
{
    reveal_strlit("bearer");
    reveal_strlit("authorization");
    reveal_strlit("x-api-key");
    reveal_strlit(" ");
    let value = headers@[0].1@;
    assert(lowered("bearer"@) =~= "bearer"@);
    assert(lowered("authorization"@) =~= "authorization"@);
    assert(lowered("x-api-key"@) =~= "x-api-key"@);
    reveal_with_fuel(crate::accounts::web::header_from, 3);
    if value == scheme + " "@ + t {
        let n = scheme.len() as int;
        assert(value[n] == ' ');
        assert(value.contains(' '));
        lemma_find(value, ' ');
        let k = find(value, ' ');
        if k < n {
            assert(scheme[k] == ' ');
            assert(scheme.contains(' '));
        } else if n < k {
            assert(value.take(k)[n] == ' ');
        }
        assert(value.take(n) =~= scheme);
        assert(value.skip(n + 1) =~= t);
    }
}

/// Codes are sent to the client's own domain and to names below it, and nowhere
/// else: not to a name that only ends like it, and nowhere where none is set.
pub proof fn codes_go_to_the_clients_domain(
    domain: &str,
    label: Seq<char>,
    host: Option<String>,
    r: bool,
)
    requires
        call_ensures(client_host, (domain, &host), r),
        domain@.len() > 0,
    ensures
        host is None ==> !r,
        host matches Some(h) && h@ == domain@ ==> r,
        host matches Some(h) && h@ == label + "."@ + domain@ ==> r,
        host matches Some(h) && h@.len() < domain@.len() ==> !r,
        host matches Some(h) && h@ == label + domain@ && label.len() > 0 && label.last() != '.'
            ==> !r,
{
    reveal_strlit(".");
    if let Some(h) = host {
        let tail = "."@ + domain@;
        if h@ == label + "."@ + domain@ {
            assert(h@.subrange(h@.len() - tail.len(), h@.len() as int) =~= tail);
        }
        if h@ == label + domain@ && label.len() > 0 && label.last() != '.' {
            assert(h@.len() != domain@.len());
            if tail.is_suffix_of(h@) {
                assert(h@.subrange(h@.len() - tail.len(), h@.len() as int)[0] == tail[0]);
                assert(h@[label.len() - 1] == '.');
            }
        }
    }
}

/// A token is given to the client that is configured, for a code of its own that
/// has not expired, at the address the code was asked for at and with its verifier,
/// or for a refresh; and to nobody else.
pub proof fn who_is_given_a_token(
    oauth: &mut OAuth,
    id: Option<String>,
    secret: Option<String>,
    body: TokenRequest,
    now: u64,
    r: Reply,
)
    requires
        call_ensures(token_for, (oauth, &id, &secret, &body, now), r),
    ensures
        !(id matches Some(i) && i@ == old(oauth).client_id@) ==> r.status == 401,
        !(secret matches Some(s) && s@ == old(oauth).client_secret@) ==> r.status == 401,
        r.status == 200 || r.status == 400 || r.status == 401,
        r.status == 200 && body.grant_type@ != "refresh_token"@ ==> {
            &&& body.grant_type@ == "authorization_code"@
            &&& body.code matches Some(code)
            &&& old(oauth).auth_codes@.contains_key(code@)
            &&& old(oauth).auth_codes@[code@].expires_at >= now
            &&& body.redirect_uri matches Some(uri)
            &&& uri@ == old(oauth).auth_codes@[code@].redirect_uri@
            &&& old(oauth).auth_codes@[code@].code_challenge matches Some(challenge)
                ==> challenge@ == crate::crypto::base64_url(
                crate::crypto::sha256(
                    vstd::utf8::encode_utf8(
                        match body.code_verifier {
                            Some(v) => v@,
                            None => ""@,
                        },
                    ),
                ),
            )
        },
        (id matches Some(i) && i@ == old(oauth).client_id@) && (secret matches Some(s) && s@
            == old(oauth).client_secret@) && body.grant_type@ == "refresh_token"@ ==> r.status
            == 200,
        r.status == 200 && body.grant_type@ == "authorization_code"@
            ==> !final(oauth).auth_codes@.contains_key(body.code->0@),
{
    reveal_strlit("authorization_code");
    reveal_strlit("refresh_token");
    assert("authorization_code"@.len() != "refresh_token"@.len());
}

/// The client that is configured is given its token for a code that has not expired, at
/// the address it was asked for at, where there is no challenge or the verifier answers
/// it. The token is the secret that the server takes as one.
pub proof fn a_code_is_good_for_a_token(
    oauth: &mut OAuth,
    id: Option<String>,
    secret: Option<String>,
    body: TokenRequest,
    now: u64,
    code: String,
    uri: String,
    verifier: Seq<char>,
    r: Reply,
)
    requires
        call_ensures(token_for, (oauth, &id, &secret, &body, now), r),
        id matches Some(i) && i@ == old(oauth).client_id@,
        secret matches Some(s) && s@ == old(oauth).client_secret@,
        body.grant_type@ == "authorization_code"@,
        body.code == Some(code),
        body.redirect_uri == Some(uri),
        old(oauth).auth_codes@.contains_key(code@),
        old(oauth).auth_codes@[code@].redirect_uri@ == uri@,
        now <= old(oauth).auth_codes@[code@].expires_at,
        old(oauth).auth_codes@[code@].code_challenge matches Some(c) ==> (body.code_verifier matches Some(
            v,
        ) && v@ == verifier && c@ == crate::crypto::base64_url(
            crate::crypto::sha256(vstd::utf8::encode_utf8(verifier)),
        )),
    ensures
        r.status == 200,
        r.body@ == "{\"access_token\":"@ + json_string(old(oauth).client_secret@)
            + ",\"expires_in\":31536000,\"refresh_token\":"@ + json_string(
            old(oauth).client_secret@,
        ) + ",\"token_type\":\"Bearer\"}"@,
{
}

/// A code that the client named is used up, whatever came of it; no other code is
/// touched, and one that a stranger named is kept. Each refusal is told by its name.
pub proof fn a_code_is_used_once(
    oauth: &mut OAuth,
    id: Option<String>,
    secret: Option<String>,
    body: TokenRequest,
    now: u64,
    k: Seq<char>,
    r: Reply,
)
    requires
        call_ensures(token_for, (oauth, &id, &secret, &body, now), r),
    ensures
        (id matches Some(i) && i@ == old(oauth).client_id@) && (secret matches Some(s) && s@
            == old(oauth).client_secret@) ==> {
            let named = body.grant_type@ == "authorization_code"@ && (body.code matches Some(c)
                && c@ == k);
            &&& named ==> !final(oauth).auth_codes@.contains_key(k)
            &&& !named ==> final(oauth).auth_codes@.contains_key(k)
                == old(oauth).auth_codes@.contains_key(k)
            &&& body.grant_type@ == "authorization_code"@ && body.code is None ==> r.body@
                == "{\"error\":\"invalid_request\"}"@
            &&& named && !old(oauth).auth_codes@.contains_key(k) ==> r.body@
                == "{\"error\":\"invalid_grant\"}"@
            &&& body.grant_type@ != "authorization_code"@ && body.grant_type@ != "refresh_token"@
                ==> r.body@ == "{\"error\":\"unsupported_grant_type\"}"@
        },
        r.status == 401 ==> r.body@ == "{\"error\":\"invalid_client\"}"@
            && final(oauth).auth_codes@ == old(oauth).auth_codes@,
{
    json_errors();
}

/// The errors of the token endpoint are written out.
proof fn json_errors()
    ensures
        "{\"error\":\""@ + "invalid_client"@ + "\"}"@ == "{\"error\":\"invalid_client\"}"@,
        "{\"error\":\""@ + "invalid_request"@ + "\"}"@ == "{\"error\":\"invalid_request\"}"@,
        "{\"error\":\""@ + "invalid_grant"@ + "\"}"@ == "{\"error\":\"invalid_grant\"}"@,
        "{\"error\":\""@ + "unsupported_grant_type"@ + "\"}"@
            == "{\"error\":\"unsupported_grant_type\"}"@,
{
    reveal_strlit("{\"error\":\"");
    reveal_strlit("\"}");
    reveal_strlit("invalid_client");
    reveal_strlit("invalid_request");
    reveal_strlit("invalid_grant");
    reveal_strlit("unsupported_grant_type");
    reveal_strlit("{\"error\":\"invalid_client\"}");
    reveal_strlit("{\"error\":\"invalid_request\"}");
    reveal_strlit("{\"error\":\"invalid_grant\"}");
    reveal_strlit("{\"error\":\"unsupported_grant_type\"}");
    assert("{\"error\":\""@ + "invalid_client"@ + "\"}"@ =~= "{\"error\":\"invalid_client\"}"@);
    assert("{\"error\":\""@ + "invalid_request"@ + "\"}"@
        =~= "{\"error\":\"invalid_request\"}"@);
    assert("{\"error\":\""@ + "invalid_grant"@ + "\"}"@ =~= "{\"error\":\"invalid_grant\"}"@);
    assert("{\"error\":\""@ + "unsupported_grant_type"@ + "\"}"@
        =~= "{\"error\":\"unsupported_grant_type\"}"@);
}

/// A code lasts a minute, is kept for the address and the challenge it was asked for
/// with, and is handed out only to the client, for a code, at an address of its own.
pub proof fn a_code_lasts_a_minute(
    oauth: &mut OAuth,
    params: AuthorizeParams,
    host: Option<String>,
    code: String,
    now: u64,
    domain: &str,
    own: bool,
    r: Reply,
)
    requires
        now <= u64::MAX - 60_000,
        call_ensures(authorize_with, (oauth, &params, &host, code, now), r),
        domain@ == old(oauth).client_domain@,
        call_ensures(client_host, (domain, &host), own),
    ensures
        !own ==> r.status == 400 && final(oauth).auth_codes@ == old(oauth).auth_codes@,
        own ==> r.status == 303,
        own ==> {
            let asked = params.response_type@ == "code"@ && params.client_id@ == old(
                oauth,
            ).client_id@;
            let told = params.redirect_uri@ + if asked {
                "?code="@ + code@
            } else {
                "?error=invalid_request"@
            };
            pairs(r.headers@) == seq![
                (
                    "location"@,
                    match params.state {
                        Some(state) => told + "&state="@ + percent(state@),
                        None => told,
                    },
                ),
            ]
        },
        own && (params.response_type@ != "code"@ || params.client_id@ != old(oauth).client_id@)
            ==> final(oauth).auth_codes@ == old(oauth).auth_codes@,
        own && params.response_type@ == "code"@ && params.client_id@ == old(oauth).client_id@ ==> {
            &&& final(oauth).auth_codes@.contains_key(code@)
            &&& final(oauth).auth_codes@[code@].expires_at == now + 60_000
            &&& final(oauth).auth_codes@[code@].redirect_uri@ == params.redirect_uri@
            &&& text_of(final(oauth).auth_codes@[code@].code_challenge) == text_of(
                params.code_challenge,
            )
        },
{
    let asked = params.response_type@ == "code"@ && params.client_id@ == old(oauth).client_id@;
    let told = params.redirect_uri@ + if asked {
        "?code="@ + code@
    } else {
        "?error=invalid_request"@
    };
    if let Some(state) = params.state {
        assert(told + "&state="@ + percent(state@) =~= told + ("&state="@ + percent(state@)));
    }
}

/// A client presents its id and its secret in the header, behind `Basic`, with a colon
/// between them; and else in the form.
pub proof fn how_a_client_presents_itself(
    headers: Vec<(String, String)>,
    body: TokenRequest,
    name: &str,
    header: Option<&str>,
    encoded: Seq<char>,
    id: Seq<char>,
    secret: Seq<char>,
    r: (Option<String>, Option<String>),
)
    requires
        name@ == "authorization"@,
        call_ensures(header_value, (&headers, name), header),
        call_ensures(client_credentials, (&headers, &body), r),
        !id.contains(':'),
    ensures
        header is None ==> text_of(r.0) == text_of(body.client_id) && text_of(r.1) == text_of(
            body.client_secret,
        ),
        (header matches Some(h) && !"Basic "@.is_prefix_of(h@)) ==> text_of(r.0) == text_of(
            body.client_id,
        ) && text_of(r.1) == text_of(body.client_secret),
        (header matches Some(h) && h@ == "Basic "@ + encoded) && (base64_decoded(encoded) matches Some(
            bytes,
        ) && valid_utf8(bytes) && decode_utf8(bytes) == id + ":"@ + secret) ==> text_of(r.0)
            == Some(id) && text_of(r.1) == Some(secret),
{
    reveal_strlit(":");
    if header matches Some(h) && h@ == "Basic "@ + encoded {
        let value = header->0@;
        let n = "Basic "@.len() as int;
        assert(value.subrange(0, n) =~= "Basic "@);
        assert("Basic "@.is_prefix_of(value));
        assert(value.skip(n) =~= encoded);
        let s = id + ":"@ + secret;
        let k = id.len() as int;
        assert(s[k] == ':');
        assert(s.contains(':'));
        lemma_find(s, ':');
        let p = find(s, ':');
        if p < k {
            assert(id[p] == ':');
        } else if k < p {
            assert(s.take(p)[k] == ':');
        }
        assert(s.take(k) =~= id);
        assert(s.skip(k + 1) =~= secret);
    }
}

/// A request for a token is answered by what the client presents.
pub proof fn a_token_is_asked_for_by_what_is_presented(
    oauth: &mut OAuth,
    asked: &mut OAuth,
    headers: Vec<(String, String)>,
    body: TokenRequest,
    now: u64,
    who: (Option<String>, Option<String>),
    x: Reply,
    r: Reply,
)
    requires
        *old(oauth) == *old(asked),
        call_ensures(client_credentials, (&headers, &body), who),
        call_ensures(token_for, (asked, &who.0, &who.1, &body, now), x),
        call_ensures(token_endpoint, (oauth, &headers, &body, now), r),
    ensures
        r@ == x@,
        final(oauth).auth_codes@ == final(asked).auth_codes@,
{
}

/// A code may be sent to a URI whose host is the client's.
pub proof fn a_code_goes_to_the_clients_host(
    domain: &str,
    uri: &str,
    host: Option<String>,
    own: bool,
    r: bool,
)
    requires
        text_of(host) == uri_host(uri@),
        call_ensures(client_host, (domain, &host), own),
        call_ensures(redirect_uri_allowed, (domain, uri), r),
    ensures
        r == own,
{
}

/// Where the jobs of an app are kept, what a job's handler is handed, and what is
/// recorded of a run.
pub proof fn what_a_job_is_handed(
    config: Config,
    app: &str,
    job: Job,
    name: &str,
    outcome: Result<u16, String>,
    place: Option<String>,
    request: GuestRequest,
    status: String,
    guards: crate::runtime::wasm::Guards,
)
    requires
        call_ensures(path_for, (&config, app), place),
        call_ensures(job_request, (&job, name), request),
        call_ensures(job_status, (outcome,), status),
        call_ensures(job_guards, (), guards),
    ensures
        place is Some == is_slug(app@),
        place matches Some(p) ==> p@ == inside(config.data_dir@, app@ + ".jobs"@),
        request.method@ == "GET"@ && request.path@ == job.path@ && request.body.len() == 0,
        request.query@.len() == 0,
        request.headers.len() == 1 && request.headers@[0].0@ == "x-toolsite-scheduled"@
            && request.headers@[0].1@ == name@,
        outcome matches Ok(n) ==> status@ == digits(n as nat),
        outcome matches Err(e) ==> e@.is_suffix_of(status@),
        guards.wall_clock == 60_000 && guards.memory_bytes == 128 * 1024 * 1024,
{
    if let Err(e) = outcome {
        let s = status@;
        assert(s.subrange(s.len() - e@.len(), s.len() as int) =~= e@);
    }
}

/// A write that was done is answered as it was to be, and one that failed is a 500. An
/// archive without migrations is refused, and so is a manifest that is.
pub proof fn how_writes_are_answered(
    ok: bool,
    done: Reply,
    r: Reply,
    count: Result<u64, String>,
    refused: Option<Reply>,
    app: &str,
    outcome: Result<Vec<String>, String>,
    told: Reply,
)
    requires
        call_ensures(written, (ok, done), r),
        call_ensures(migrations_read, (&count,), refused),
        call_ensures(manifest_applied, (app, outcome), told),
    ensures
        ok ==> r@ == done@,
        !ok ==> r.status == 500,
        refused is None == (count matches Ok(n) && n > 0),
        refused matches Some(reply) ==> reply.status == 400,
        outcome is Ok ==> told.status == 200,
        outcome is Err ==> told.status == 400,
        outcome matches Ok(changed) ==> (changed@.len() == 0 ==> told.body@ == app@
            + " already matches its manifest\n"@),
        outcome matches Ok(changed) ==> (changed@.len() > 0 ==> told.body@ == app@ + ": applied "@
            + joined(texts(changed@), ", "@) + "\n"@),
        outcome matches Err(m) ==> told.body@ == m@ + "\n"@,
        count matches Err(m) ==> (refused matches Some(reply) && reply.body@ == m@ + "\n"@),
{
}

/// The URL of a ticket is below `/upload/` on the server's public URL, or on this
/// machine's where there is none.
pub proof fn a_ticket_has_its_url(config: Config, ticket: &str, r: String)
    requires
        call_ensures(upload_url, (&config, ticket), r),
    ensures
        config.base_url matches Some(base) ==> r@ == base@ + "/upload/"@ + ticket@,
        config.base_url is None ==> r@ == config.local_base@ + "/upload/"@ + ticket@,
{
}

/// An upload is answered with the URL of what was written: a page's own below
/// `/p/`, and that of the app's root for an app's index page, where it is served.
pub proof fn an_upload_is_told_its_url(
    config: &mut Config,
    now: u64,
    ticket: &str,
    kind: UploadKind,
    body: &[u8],
    slug: Seq<char>,
    root: Seq<char>,
    base: Seq<char>,
    app: &str,
    first: String,
    r: UploadStep,
)
    requires
        call_ensures(store_upload, (config, now, ticket, None, kind, body), r),
        app@ == slug,
        call_ensures(app_name, (app,), first),
        old(config).uploads@.contains_key(ticket@),
        old(config).uploads@[ticket@].expires_at > now,
        old(config).uploads@[ticket@].slug@ == slug,
        is_slug(slug),
        slug == root + "/index"@ || slug == root && !"/index"@.is_suffix_of(slug),
        match old(config).base_url {
            Some(b) => base == b@,
            None => base == ""@,
        },
        0 < body@.len() <= 1_048_576,
    ensures
        kind == UploadKind::Page && valid_utf8(body@) && trimmed(decode_utf8(body@)).len() > 0 ==> (
        r matches UploadStep::Write { path, done } && done.body@ == base + "/p/"@ + root + "\n"@),
        kind == UploadKind::Icon ==> (r matches UploadStep::Write { path, done } && done.body@
            == "icon set for "@ + (base + "/p/"@ + root) + "\n"@),
        kind == UploadKind::Source ==> (r matches UploadStep::Write { path, done } && done.body@
            == "stored "@ + digits(body@.len()) + " bytes of source for "@ + first@
            + "; fetch it back with GET on this same URL with ?source\n"@),
{
    let end = "/index"@;
    if slug == root + end {
        assert(slug.subrange(slug.len() - end.len(), slug.len() as int) =~= end);
        assert(slug.take(slug.len() - end.len()) =~= root);
    }
    reveal_strlit("");
    assert(base =~= old(config).page_base());
}

/// The report on a bundle says how many files went where, then what was left out, where
/// anything was, and ends with a warning where there is no index page at its root.
pub proof fn a_bundle_is_reported_on(
    config: Config,
    slug: &str,
    u: Unpacked,
    bundle: Reply,
    head: Seq<char>,
)
    requires
        call_ensures(bundle_unpacked, (&config, slug, Unpacking::Done(u)), bundle),
        head == "unpacked "@ + digits(u.files@.len()) + " files to "@ + (match config.base_url {
            Some(b) => b@,
            None => ""@,
        } + "/p/"@ + slug@) + "\n"@,
    ensures
        head.is_prefix_of(bundle.body@),
        u.skipped@.len() == 0 && texts(u.files@).contains("index.html"@) ==> bundle.body@ == head,
        u.skipped@.len() > 0 ==> (head + "skipped "@ + joined(labels(u.skipped@), ", "@)
            + "\n"@).is_prefix_of(bundle.body@),
        u.skipped@.len() == 1 && texts(u.files@).contains("index.html"@) ==> bundle.body@ == head
            + "skipped "@ + u.skipped@[0]@ + "\n"@,
        u.skipped@.len() == 0 && !texts(u.files@).contains("index.html"@) ==> bundle.body@ == head
            + "warning: no index.html at the bundle root, so the app root will 404\n"@,
{
    assert(texts(u.files@).len() == u.files@.len());
    assert(labels(u.skipped@).len() == u.skipped@.len());
    reveal_strlit("");
    assert(match config.base_url {
        Some(b) => b@,
        None => ""@,
    } =~= config.page_base());
    let body = bundle.body@;
    let more = head + "skipped "@ + joined(labels(u.skipped@), ", "@) + "\n"@;
    assert(body.subrange(0, head.len() as int) =~= head);
    if u.skipped@.len() > 0 {
        assert(body.subrange(0, more.len() as int) =~= more);
    }
    if u.skipped@.len() == 1 {
        assert(labels(u.skipped@)[0] == u.skipped@[0]@);
    }
}

/// A client that looks for it is told where to ask for a code and for a token: below the
/// public URL of the server, which is its own authority.
pub proof fn where_a_client_asks_is_told(base: &str, resource: Reply, server: Reply)
    requires
        call_ensures(oauth_protected_resource_metadata, (base,), resource),
        call_ensures(oauth_authorization_server_metadata, (base,), server),
    ensures
        resource.status == 200 && server.status == 200,
        resource.body@ == "{\"authorization_servers\":["@ + json_string(base@)
            + "],\"resource\":"@ + json_string(base@ + "/mcp"@) + "}"@,
        ("{\"authorization_endpoint\":"@ + json_string(base@ + "/authorize"@)).is_prefix_of(
            server.body@,
        ),
        (json_string(base@) + ",\"response_types_supported\":[\"code\"],\"token_endpoint\":"@
            + json_string(base@ + "/token"@)
            + ",\"token_endpoint_auth_methods_supported\":[\"client_secret_post\",\"client_secret_basic\"]}"@).is_suffix_of(
            server.body@,
        ),
{
    let all = server.body@;
    let head = "{\"authorization_endpoint\":"@ + json_string(base@ + "/authorize"@);
    assert(all.subrange(0, head.len() as int) =~= head);
    let tail = json_string(base@)
        + ",\"response_types_supported\":[\"code\"],\"token_endpoint\":"@ + json_string(
        base@ + "/token"@,
    )
        + ",\"token_endpoint_auth_methods_supported\":[\"client_secret_post\",\"client_secret_basic\"]}"@;
    assert(all.subrange(all.len() - tail.len(), all.len() as int) =~= tail);
}

} // verus!
