//! What holds of the tools that an agent has, and of an app's manifest: each law is
//! about what a function is handed and what it gives back.
use crate::accounts::rows::{first_from, lemma_first, lemma_kept, lemma_only};
use crate::accounts::users::{
    has_email, has_grant, is_grant, normalise, of_others, outlives, role_in, Accounts, Grant, User,
};
use crate::config::Config;
use crate::content::slug::{is_drawn, is_segment, is_slug};
use crate::content::store::{inside, page_url, PageMeta, PathRule};
use crate::crypto::hash_token;
use crate::platform::manifest::{
    apply, declares, is_declared, job_applied, job_stands, jobs_refusal, meta_changes, removed_jobs,
    routes_refusal, routes_stand, rule_stands, set_jobs, truth, valid_gate, Applied,
    Job as Declared, Manifest, Route,
};
use crate::platform::mcp::{
    app_jobs, app_notes, app_pulled, app_settings, chosen_slug, create_upload, create_upload_with,
    create_user_with, is_listed, job_ran, link_made, list_pages, newest_first, notes_read,
    page_in_file, page_lines, page_pulled, pages_refusal, pull_app, pull_page, push_app, push_page,
    run_sql, set_access, set_icon, set_user_active, set_visibility, settings_link,
    settings_link_with, told_pages, AccessRequest, AppWrite, CreateUserRequest, IconWrite, JobStep,
    Listing, PageWrite, ScheduleRequest, SecretRequest, SetVisibilityRequest, Tells, Told,
};
use crate::platform::schedule::{check_job, Job};
use crate::platform::secrets::{entry_app, get};
use crate::platform::settings_laws::is_name;
use crate::platform::upload::{ticket_slug, UploadTicket};
use crate::runtime::db::SqlOutcome;
use crate::runtime::laws::lemma_filtered;
use crate::table::Table;
use crate::text::{in_order, joined, texts, trimmed};
use vstd::prelude::*;
use vstd::utf8::encode_utf8;

verus! {

/// A page is written where it is read back from: in the file of its slug. What is
/// no slug is refused either way, and what is told is where the page is.
pub proof fn a_page_is_written_where_it_is_read(
    config: Config,
    slug: &str,
    url: String,
    w: Result<PageWrite, Told>,
    r: Result<String, Told>,
)
    requires
        call_ensures(page_url, (&config, slug), url),
        call_ensures(push_page, (&config, slug), w),
        call_ensures(pull_page, (&config, slug), r),
    ensures
        w is Ok == is_slug(slug@),
        r is Ok == is_slug(slug@),
        w matches Err(told) ==> told is Refused,
        r matches Err(told) ==> told is Refused,
        w matches Ok(write) ==> write.path@ == inside(config.data_dir@, slug@ + ".html"@)
            && write.path@ == r->Ok_0@ && (write.told matches Told::Done(text) && text@ == url@),
{
}

/// A page that is read is handed over as it is, and one that is not there is
/// refused; so it is with notes, but that their lack is no failure.
pub proof fn what_was_read_is_told(
    slug: &str,
    text: Option<String>,
    page: Told,
    notes: Told,
)
    requires
        call_ensures(page_pulled, (slug, text), page),
        call_ensures(notes_read, (slug, text), notes),
    ensures
        text matches Some(t) ==> (page matches Told::Done(x) && x@ == t@) && (
        notes matches Told::Done(x) && x@ == t@),
        text is None ==> page is Refused && notes is Done,
{
}

/// An app is published where its name and those of its pages are single segments and
/// it has a page: each page in the app's directory, in the order given.
pub proof fn the_pages_of_an_app_go_into_it(
    config: Config,
    app: &str,
    pages: Vec<String>,
    i: int,
    r: Result<AppWrite, Told>,
)
    requires
        call_ensures(push_app, (&config, app, &pages), r),
        0 <= i < pages.len(),
    ensures
        !is_segment(app@) || !is_segment(pages@[i]@) ==> (r matches Err(told) && told is Refused),
        is_segment(app@) && (forall|k: int|
            0 <= k < pages.len() ==> is_segment((#[trigger] pages@[k])@)) ==> r is Ok,
        r matches Ok(write) ==> write.told is Done && write.paths.len() == pages.len()
            && write.paths@[i]@ == inside(inside(config.data_dir@, app@), pages@[i]@ + ".html"@),
{
    let all = texts(pages@);
    assert(all.len() == pages.len());
    assert(all[i] == pages@[i]@);
    if !is_segment(all[i]) {
        lemma_page_refused(all, i);
    }
    if forall|k: int| 0 <= k < pages.len() ==> is_segment((#[trigger] pages@[k])@) {
        assert forall|k: int| 0 <= k < all.len() implies is_segment(#[trigger] all[k]) by {
            assert(all[k] == pages@[k]@);
        }
        lemma_pages_accepted(all);
    }
}

/// An app without pages is refused.
pub proof fn an_app_has_pages(
    config: Config,
    app: &str,
    pages: Vec<String>,
    r: Result<AppWrite, Told>,
)
    requires
        pages.len() == 0,
        call_ensures(push_app, (&config, app, &pages), r),
    ensures
        r matches Err(told) && told is Refused,
{
    assert(texts(pages@).len() == 0);
}

proof fn lemma_page_refused(pages: Seq<Seq<char>>, i: int)
    requires
        0 <= i < pages.len(),
        !is_segment(pages[i]),
    ensures
        pages_refusal(pages) is Some,
    decreases pages.len(),
{
    if i < pages.len() - 1 {
        assert(pages.drop_last()[i] == pages[i]);
        lemma_page_refused(pages.drop_last(), i);
    }
}

proof fn lemma_pages_accepted(pages: Seq<Seq<char>>)
    requires
        forall|k: int| 0 <= k < pages.len() ==> is_segment(#[trigger] pages[k]),
    ensures
        pages_refusal(pages) is None,
    decreases pages.len(),
{
    if pages.len() > 0 {
        assert(forall|k: int|
            0 <= k < pages.drop_last().len() ==> pages.drop_last()[k] == pages[k]);
        lemma_pages_accepted(pages.drop_last());
    }
}

/// The URL that is reported of a page is its own; that of `index` is the app's.
pub proof fn the_url_of_the_index_is_the_apps(
    config: Config,
    app: &str,
    name: Seq<char>,
    below: &str,
    pages: Vec<String>,
    own: String,
    apps: String,
    r: Result<AppWrite, Told>,
)
    requires
        pages.len() == 1,
        pages@[0]@ == name,
        below@ == app@ + "/"@ + name,
        call_ensures(page_url, (&config, below), own),
        call_ensures(page_url, (&config, app), apps),
        call_ensures(push_app, (&config, app, &pages), r),
        r is Ok,
    ensures
        name == "index"@ ==> (r->Ok_0.told matches Told::Done(t) && t@ == name + ": "@ + apps@),
        name != "index"@ ==> (r->Ok_0.told matches Told::Done(t) && t@ == name + ": "@ + own@),
{
    let all = page_lines(config, app@, texts(pages@));
    assert(texts(pages@)[0] == name);
    assert(all.len() == 1);
    let told = r->Ok_0.told;
    let lines = choose|lines: Seq<Seq<char>>|
        #![trigger in_order(lines)]
        in_order(lines) && lines.to_multiset() == all.to_multiset() && told@ == Tells::Done(
            joined(lines, "\n"@),
        );
    lines.to_multiset_ensures();
    all.to_multiset_ensures();
    assert(lines.len() == 1);
    assert(lines.contains(lines[0]));
    assert(lines.to_multiset().count(lines[0]) > 0);
    assert(all.contains(lines[0]));
    assert(lines[0] == all[0]);
}

/// A ticket to upload is for the slug that was asked for, from when it is made until
/// fifteen minutes later; what is no slug gets none, and other tickets stay.
pub proof fn an_upload_ticket_lasts_a_quarter(
    config: &mut Config,
    uploads: &mut Table<UploadTicket>,
    slug: &str,
    ticket: String,
    given: &str,
    now: u64,
    later: u64,
    k: Seq<char>,
    told: Told,
    r: Option<String>,
)
    requires
        now <= u64::MAX - 900_000,
        call_ensures(create_upload_with, (config, slug, ticket, now), told),
        old(uploads)@ == final(config).uploads@,
        given@ == ticket@,
        call_ensures(ticket_slug, (uploads, later, given), r),
    ensures
        told is Done == is_slug(slug@),
        is_slug(slug@) && later < now + 900_000 ==> (r matches Some(s) && s@ == slug@),
        is_slug(slug@) && later >= now + 900_000 ==> r is None,
        !is_slug(slug@) ==> final(config).uploads@ == old(config).uploads@,
        k != ticket@ && old(config).uploads@.contains_key(k) && old(config).uploads@[k].expires_at
            > now ==> final(config).uploads@.contains_key(k) && final(config).uploads@[k] == old(config).uploads@[k],
{
    let before = old(config).uploads@;
    let after = final(config).uploads@;
    if is_slug(slug@) && k != ticket@ {
        let kept = crate::platform::upload::live(before, now);
        assert(after.remove(ticket@).contains_key(k) == kept.remove(ticket@).contains_key(k));
        assert(after.remove(ticket@)[k] == kept.remove(ticket@)[k]);
    }
}

/// A statement that failed is refused with why; one that ran is told.
pub proof fn how_a_statement_went_is_told(outcome: Result<SqlOutcome, String>, r: Told)
    requires
        call_ensures(run_sql, (outcome,), r),
    ensures
        r is Done == outcome is Ok,
        outcome matches Err(m) ==> (r matches Told::Refused(text) && text@ == m@),
{
}

/// How a job went on demand is told; where it could not run, it is refused.
pub proof fn how_a_job_went_is_told(name: &str, outcome: Result<String, String>, r: Told)
    requires
        call_ensures(job_ran, (name, outcome), r),
    ensures
        r is Done == outcome is Ok,
        outcome matches Err(m) ==> (r matches Told::Refused(text) && text@ == m@),
        outcome matches Ok(m) ==> (r matches Told::Done(text) && m@.is_suffix_of(text@)),
{
    if let Ok(m) = outcome {
        let text = name@ + " ran: "@ + m@;
        assert(text.subrange(text.len() - m@.len(), text.len() as int) =~= m@);
    }
}

/// A request about jobs runs one only where it says so, lists them where it names
/// none, sets one where it gives its schedule and its path, takes one away where it
/// gives neither, and otherwise changes nothing; no job but the named one changes.
pub proof fn what_a_request_about_jobs_does(
    jobs: &mut Table<Job>,
    request: ScheduleRequest,
    now: i64,
    schedule: &str,
    path: &str,
    name: &str,
    k: Seq<char>,
    ok: Result<i64, String>,
    r: JobStep,
)
    requires
        call_ensures(app_jobs, (jobs, &request, now), r),
        is_slug(request.app@),
        request.name matches Some(n) && n@ == name@,
        request.schedule matches Some(s) ==> s@ == schedule@,
        request.path matches Some(p) ==> p@ == path@,
        call_ensures(check_job, (name, schedule, path, now), ok),
    ensures
        r is Run == (request.run_now == Some(true)),
        r matches JobStep::Run(n) ==> n@ == name@ && final(jobs)@ == old(jobs)@,
        k != name@ ==> final(jobs)@.contains_key(k) == old(jobs)@.contains_key(k) && (old(jobs)@.contains_key(k) ==> final(jobs)@[k] == old(jobs)@[k]),
        r is Answer && request.schedule is Some && request.path is Some && ok is Ok ==> {
            &&& r matches JobStep::Answer(told) && told is Done
            &&& final(jobs)@.contains_key(name@)
            &&& final(jobs)@[name@].schedule@ == schedule@
            &&& final(jobs)@[name@].path@ == path@
            &&& final(jobs)@[name@].last_run is None
        },
        r is Answer && request.schedule is Some && request.path is Some && ok is Err ==> (
        r matches JobStep::Answer(told) && told is Refused) && final(jobs)@ == old(jobs)@,
        r is Answer && request.schedule is None && request.path is None ==> !final(jobs)@.contains_key(name@) && (r matches JobStep::Answer(told) && told is Done == old(jobs)@.contains_key(name@)),
        r is Answer && request.schedule is Some != request.path is Some ==> (
        r matches JobStep::Answer(told) && told is Refused) && final(jobs)@ == old(jobs)@,
{
    let before = old(jobs)@;
    let after = final(jobs)@;
    if k != name@ && r is Answer && request.schedule is Some && request.path is Some && ok is Ok {
        assert(after.remove(name@).contains_key(k) == before.remove(name@).contains_key(k));
        assert(after.remove(name@)[k] == before.remove(name@)[k]);
    }
}

/// A request about jobs that names none, or an app that cannot be one, changes
/// nothing.
pub proof fn listing_jobs_changes_none(
    jobs: &mut Table<Job>,
    request: ScheduleRequest,
    now: i64,
    r: JobStep,
)
    requires
        call_ensures(app_jobs, (jobs, &request, now), r),
        request.name is None || !is_slug(request.app@),
    ensures
        final(jobs)@ == old(jobs)@,
        r matches JobStep::Answer(told) && told is Done == is_slug(request.app@),
{
}

/// A link to enter settings works as one that an owner makes: for an hour, for its
/// app.
pub proof fn a_link_is_for_its_app(
    config: &mut Config,
    uploads: &mut Table<UploadTicket>,
    request: SecretRequest,
    token: String,
    given: &str,
    now: u64,
    later: u64,
    told: Told,
    r: Option<String>,
)
    requires
        now <= u64::MAX - 3_600_000,
        call_ensures(settings_link_with, (config, &request, token, now), told),
        old(uploads)@ == final(config).uploads@,
        given@ == token@,
        call_ensures(entry_app, (uploads, later, given), r),
    ensures
        told is Done == is_slug(request.app@),
        told matches Told::Done(text) ==> ("/settings/"@ + token@).is_suffix_of(text@),
        told is Done && later < now + 3_600_000 ==> (r matches Some(a) && a@ == request.app@),
        told is Done && later >= now + 3_600_000 ==> r is None,
{
    if let Told::Done(text) = told {
        let tail = "/settings/"@ + token@;
        let whole = text@;
        assert(whole.subrange(whole.len() - tail.len(), whole.len() as int) =~= tail);
    }
}

/// An agent sets a setting, takes one away, or is told their names; a value never
/// comes back.
pub proof fn what_a_request_about_settings_does(
    settings: &mut Table<String>,
    after: Table<String>,
    k: Vec<u8>,
    request: SecretRequest,
    name: &str,
    r: Told,
    read: Option<String>,
)
    requires
        call_ensures(app_settings, (settings, &k, &request), r),
        request.name matches Some(n) && n@ == name@,
        after@ == final(settings)@,
        call_ensures(get, (&after, &k, name), read),
    ensures
        !is_slug(request.app@) || !is_name(name@) ==> r is Refused && final(settings)@ == old(settings)@,
        r is Refused ==> final(settings)@ == old(settings)@,
        r is Done && request.value is Some ==> (read matches Some(v) && v@ == request.value->0@),
        r is Done && request.value is None ==> read is None && old(settings)@.contains_key(name@),
        r matches Told::Done(text) ==> text@ == name@ + " is set for "@ + request.app@ || text@
            == name@ + " is gone from "@ + request.app@,
{
    assert(is_name(name@) == crate::platform::secrets::is_setting(name@));
}

/// The notes of an app are in a file beside it, and what is no slug has none.
pub proof fn notes_are_kept_beside_their_app(
    config: Config,
    slug: &str,
    r: Result<String, Told>,
)
    requires
        call_ensures(app_notes, (&config, slug), r),
    ensures
        r is Ok == is_slug(slug@),
        r matches Ok(path) ==> path@ == inside(config.data_dir@, slug@ + ".notes"@),
{
}

/// Pages are listed newest first, and those that are hidden or not listed only where
/// all are asked for; no page that is listed is left out.
pub proof fn pages_are_listed_newest_first(
    config: Config,
    pages: Vec<Listing>,
    include_all: Option<bool>,
    now: u64,
    r: Told,
)
    requires
        call_ensures(list_pages, (&config, pages, include_all, now), r),
    ensures
        r is Done,
        exists|rows: Seq<Listing>| #[trigger]
            told_pages(config, rows, now) == r@ && (forall|i: int, j: int|
                #![trigger rows[i], rows[j]]
                0 <= i < j < rows.len() ==> (rows[j].modified matches Some(y) ==> y > 0 ==> (
                rows[i].modified matches Some(x) && x >= y))) && (forall|l: Listing| #[trigger]
                rows.contains(l) == (pages@.contains(l) && (include_all == Some(true) || (l.listed
                    && !l.hidden)))),
{
    let all = crate::platform::mcp::chosen(include_all, false);
    let shown = pages@.filter(is_listed(all));
    let rows = choose|rows: Seq<Listing>|
        crate::order::is_ordered_from(rows, shown, newest_first()) && r@ == #[trigger] told_pages(
            config,
            rows,
            now,
        );
    assert forall|i: int, j: int|
        #![trigger rows[i], rows[j]]
        0 <= i < j < rows.len() implies (rows[j].modified matches Some(y) ==> y > 0 ==> (
    rows[i].modified matches Some(x) && x >= y)) by {
        let before = newest_first();
        assert(before(rows[i], rows[j]));
    }
    assert forall|l: Listing| #[trigger] rows.contains(l) == (pages@.contains(l) && (include_all
        == Some(true) || (l.listed && !l.hidden))) by {
        let alike = crate::order::like(newest_first(), l);
        assert(alike(l));
        assert(rows.filter(alike) == shown.filter(alike));
        lemma_filtered(rows, alike, l);
        lemma_filtered(shown, alike, l);
        let fits = is_listed(all);
        if fits(l) {
            lemma_filtered(pages@, fits, l);
        } else if shown.contains(l) {
            let i = shown.index_of(l);
            pages@.lemma_filter_pred(fits, i);
        }
    }
}

/// What an agent changes of who sees a page is what it asked for, and nothing else.
pub proof fn only_what_is_asked_for_changes(
    config: Config,
    request: SetVisibilityRequest,
    found: bool,
    meta: PageMeta,
    r: Result<(PageMeta, Told), Told>,
)
    requires
        call_ensures(set_visibility, (&config, &request, found, meta), r),
    ensures
        !is_slug(request.slug@) || !found ==> r is Err,
        request.hidden is None && request.listed is None && request.gate is None && request.path
            is None ==> r is Err,
        request.gate matches Some(g) && g@ != "public"@ && g@ != "authenticated"@ && g@
            != "granted"@ ==> r is Err,
        is_slug(request.slug@) && found && request.path is None && request.gate is None && (
        request.hidden is Some || request.listed is Some) ==> r is Ok,
        is_slug(request.slug@) && found && (request.gate matches Some(g) && (g@ == "public"@ || g@
            == "authenticated"@ || g@ == "granted"@)) ==> r is Ok,
        r matches Ok((after, told)) ==> {
            &&& told is Done
            &&& after.spa == meta.spa
            &&& after.allow_http == meta.allow_http
            &&& request.hidden matches Some(b) ==> after.hidden == b
            &&& request.hidden is None ==> after.hidden == meta.hidden
            &&& request.listed matches Some(b) ==> after.listed == b
            &&& request.listed is None ==> after.listed == meta.listed
            &&& request.gate is None || request.path is Some ==> after.gate == meta.gate
            &&& request.gate is Some && request.path is None ==> after.gate@ == request.gate->0@
            &&& request.path is None ==> after.rules == meta.rules
        },
{
}

/// An agent is told how a page stands after the change: hidden; else listed or not, with
/// its URL and behind that the rules for its parts, where there are any.
pub proof fn how_a_page_stands_is_told(
    config: Config,
    request: SetVisibilityRequest,
    found: bool,
    meta: PageMeta,
    slug: &str,
    url: String,
    after: PageMeta,
    said: String,
)
    requires
        call_ensures(
            set_visibility,
            (&config, &request, found, meta),
            Ok::<(PageMeta, Told), Told>((after, Told::Done(said))),
        ),
        slug@ == request.slug@,
        call_ensures(page_url, (&config, slug), url),
    ensures
        after.hidden ==> said@ == slug@ + ": "@
            + "hidden (URL returns 404; set hidden=false to restore)"@,
        !after.hidden && after.listed ==> (slug@ + ": "@ + "live and listed at "@
            + url@).is_prefix_of(said@),
        !after.hidden && !after.listed ==> (slug@ + ": "@ + "live but unlisted at "@
            + url@).is_prefix_of(said@),
        !after.hidden && after.rules.len() == 0 ==> url@.is_suffix_of(said@),
        !after.hidden && after.rules.len() == 1 ==> (url@ + " ("@ + (after.rules@[0].prefix@
            + " is "@ + after.rules@[0].gate@) + ")"@).is_suffix_of(said@),
{
    reveal_strlit("");
    let all = said@;
    if !after.hidden {
        let word = if after.listed {
            "live and listed at "@
        } else {
            "live but unlisted at "@
        };
        let head = slug@ + ": "@ + word + url@;
        let rules = after.rules@.map_values(
            |rule: PathRule| rule.prefix@ + " is "@ + rule.gate@,
        );
        assert(all.subrange(0, head.len() as int) =~= head);
        if after.rules.len() == 0 {
            assert(all.subrange(all.len() - url@.len(), all.len() as int) =~= url@);
        }
        if after.rules.len() == 1 {
            assert(rules.len() == 1);
            assert(rules[0] == after.rules@[0].prefix@ + " is "@ + after.rules@[0].gate@);
            let tail = url@ + " ("@ + rules[0] + ")"@;
            assert(all.subrange(all.len() - tail.len(), all.len() as int) =~= tail);
        }
    }
}

/// A rule for a part of an app replaces the one that stood for it, or takes it away;
/// the rules for other parts stay.
pub proof fn a_rule_is_for_its_part(
    config: Config,
    request: SetVisibilityRequest,
    found: bool,
    meta: PageMeta,
    rule: PathRule,
    r: Result<(PageMeta, Told), Told>,
)
    requires
        call_ensures(set_visibility, (&config, &request, found, meta), r),
        r is Ok,
        request.path is Some,
    ensures
        rule.prefix@ != request.path->0@ ==> (r->Ok_0).0.rules@.contains(rule)
            == meta.rules@.contains(rule),
        rule.prefix@ == request.path->0@ && request.gate is None
            ==> !(r->Ok_0).0.rules@.contains(rule),
        rule.prefix@ == request.path->0@ && request.gate is Some && (r->Ok_0).0.rules@.contains(
            rule,
        ) ==> rule.gate@ == request.gate->0@,
        request.gate is Some ==> exists|i: int|
            0 <= i < (r->Ok_0).0.rules.len() && (#[trigger] (r->Ok_0).0.rules@[i]).prefix@
                == request.path->0@ && (r->Ok_0).0.rules@[i].gate@ == request.gate->0@,
{
    let after = (r->Ok_0).0.rules@;
    let prefix = request.path->0@;
    let fits = crate::platform::mcp::elsewhere_than(prefix);
    let kept = meta.rules@.filter(fits);
    if fits(rule) {
        lemma_filtered(meta.rules@, fits, rule);
    } else if kept.contains(rule) {
        let i = kept.index_of(rule);
        meta.rules@.lemma_filter_pred(fits, i);
    }
    if request.gate is Some {
        let n = after.len() - 1;
        assert(after[n].prefix@ == prefix);
        assert(after =~= kept.push(after.last()));
        if after.contains(rule) {
            let i = after.index_of(rule);
            if i < n {
                assert(kept[i] == rule);
            }
        }
        if kept.contains(rule) {
            let i = kept.index_of(rule);
            assert(after[i] == rule);
        }
    }
}

/// An icon is set for a page that is there: trimmed, not empty, and of a megabyte at
/// most; it is kept beside the page.
pub proof fn an_icon_is_kept_beside_its_page(
    config: Config,
    slug: &str,
    icon: &str,
    direct: bool,
    found: bool,
    r: Result<IconWrite, Told>,
)
    requires
        call_ensures(set_icon, (&config, slug, icon, direct, found), r),
    ensures
        r is Ok == (is_slug(slug@) && found && trimmed(icon@).len() > 0 && encode_utf8(
            trimmed(icon@),
        ).len() <= 1_048_576),
        r matches Err(told) ==> told is Refused,
        r matches Ok(w) ==> w.icon@ == trimmed(icon@) && w.told is Done && w.path@ == inside(
            config.data_dir@,
            slug@ + if direct {
                ".icon"@
            } else {
                "/index.icon"@
            },
        ),
{
}

/// The pages of an app are read from its directory; an app without any is refused.
pub proof fn an_app_is_read_from_its_directory(
    config: Config,
    app: &str,
    pages: Vec<(String, String)>,
    r: Result<String, Told>,
    told: Told,
)
    requires
        call_ensures(pull_app, (&config, app), r),
        call_ensures(app_pulled, (app, &pages), told),
    ensures
        r is Ok == is_segment(app@),
        r matches Ok(path) ==> path@ == inside(config.data_dir@, app@),
        told is Done == (pages.len() > 0),
{
}

/// A manifest that names a gate there is none of, a route that does not start with
/// `/`, or a job that cannot be set, is refused.
pub proof fn a_bad_manifest_is_refused(
    app: &str,
    manifest: Manifest,
    meta: PageMeta,
    jobs: Table<Job>,
    now: i64,
    i: int,
    j: int,
    name: &str,
    schedule: &str,
    path: &str,
    ok: Result<i64, String>,
    gate: &str,
    known: bool,
    r: Result<Applied, String>,
)
    requires
        call_ensures(apply, (app, manifest, meta, jobs, now), r),
        call_ensures(valid_gate, (gate,), known),
        call_ensures(check_job, (name, schedule, path, now), ok),
        0 <= j < manifest.jobs.len() ==> manifest.jobs@[j].name@ == name@
            && manifest.jobs@[j].schedule@ == schedule@ && manifest.jobs@[j].path@ == path@,
    ensures
        known == (gate@ == "public"@ || gate@ == "authenticated"@ || gate@ == "granted"@),
        manifest.gate matches Some(g) && g@ == gate@ && !known ==> r is Err,
        0 <= i < manifest.routes.len() && manifest.routes@[i].gate@ == gate@ && !known ==> r is Err,
        0 <= i < manifest.routes.len() && !"/"@.is_prefix_of(manifest.routes@[i].path@) ==> r is Err,
        0 <= j < manifest.jobs.len() && ok is Err && !(jobs@.contains_key(name@)
            && jobs@[name@].schedule@ == schedule@ && jobs@[name@].path@ == path@) ==> r is Err,
        0 <= j < manifest.jobs.len() && !is_slug(app@) && !(jobs@.contains_key(name@)
            && jobs@[name@].schedule@ == schedule@ && jobs@[name@].path@ == path@) ==> r is Err,
{
    if 0 <= i < manifest.routes.len() && crate::platform::manifest::route_refusal(
        manifest.routes@[i],
    ) is Some {
        lemma_route_refused(manifest.routes@, 0, i);
    }
    if 0 <= j < manifest.jobs.len() && !crate::platform::manifest::job_stands(
        manifest.jobs@[j],
        jobs@,
    ) {
        if ok is Err {
            lemma_job_refused(manifest.jobs@, jobs@, now, 0, j);
        }
        lemma_job_set(manifest.jobs@, jobs@, manifest.jobs@.len() as int, j);
    }
}

proof fn lemma_route_refused(routes: Seq<Route>, from: int, i: int)
    requires
        0 <= from <= i < routes.len(),
        crate::platform::manifest::route_refusal(routes[i]) is Some,
    ensures
        routes_refusal(routes, from) is Some,
    decreases i - from,
{
    if from < i {
        lemma_route_refused(routes, from + 1, i);
    }
}

proof fn lemma_job_refused(
    declared: Seq<Declared>,
    jobs: Map<Seq<char>, Job>,
    now: i64,
    from: int,
    j: int,
)
    requires
        0 <= from <= j < declared.len(),
        !crate::platform::manifest::job_stands(declared[j], jobs),
        crate::platform::schedule::job_refusal(
            declared[j].name@,
            declared[j].schedule@,
            declared[j].path@,
            now,
        ) is Some,
    ensures
        jobs_refusal(declared, jobs, now, from) is Some,
    decreases j - from,
{
    if from < j {
        lemma_job_refused(declared, jobs, now, from + 1, j);
    }
}

proof fn lemma_job_set(declared: Seq<Declared>, jobs: Map<Seq<char>, Job>, n: int, j: int)
    requires
        0 <= j < n <= declared.len(),
        !crate::platform::manifest::job_stands(declared[j], jobs),
    ensures
        set_jobs(declared, jobs, n).len() > 0,
    decreases n,
{
    if j < n - 1 {
        lemma_job_set(declared, jobs, n - 1, j);
    }
}

/// A manifest of an app whose gates are known, whose routes start with `/` and that
/// declares no new job is applied.
pub proof fn a_plain_manifest_is_applied(
    app: &str,
    manifest: Manifest,
    meta: PageMeta,
    jobs: Table<Job>,
    now: i64,
    r: Result<Applied, String>,
)
    requires
        call_ensures(apply, (app, manifest, meta, jobs, now), r),
        manifest.gate matches Some(g) ==> g@ == "public"@ || g@ == "authenticated"@ || g@
            == "granted"@,
        forall|i: int|
            0 <= i < manifest.routes.len() ==> "/"@.is_prefix_of(
                (#[trigger] manifest.routes@[i]).path@,
            ) && manifest.routes@[i].gate@ == "granted"@,
        manifest.jobs.len() == 0,
    ensures
        r is Ok,
{
    lemma_routes_accepted(manifest.routes@, 0);
}

proof fn lemma_routes_accepted(routes: Seq<Route>, from: int)
    requires
        0 <= from <= routes.len(),
        forall|i: int|
            0 <= i < routes.len() ==> "/"@.is_prefix_of((#[trigger] routes[i]).path@)
                && routes[i].gate@ == "granted"@,
    ensures
        routes_refusal(routes, from) is None,
    decreases routes.len() - from,
{
    if from < routes.len() {
        assert(routes[from].gate@ == "granted"@);
        lemma_routes_accepted(routes, from + 1);
    }
}

/// What a manifest declares is what the app then has: its gate, its routes one for
/// one, its hosts, its icon. What it does not mention stays, and whether the app is
/// listed or hidden always does.
pub proof fn what_a_manifest_declares_is_had(
    app: &str,
    manifest: Manifest,
    meta: PageMeta,
    jobs: Table<Job>,
    now: i64,
    i: int,
    a: Applied,
)
    requires
        call_ensures(
            apply,
            (app, manifest, meta, jobs, now),
            Ok::<Applied, String>(a),
        ),
    ensures
        a.meta.listed == meta.listed && a.meta.hidden == meta.hidden,
        manifest.spa matches Some(b) ==> a.meta.spa == b,
        manifest.spa is None ==> a.meta.spa == meta.spa,
        manifest.gate matches Some(g) ==> a.meta.gate@ == g@,
        manifest.gate is None ==> a.meta.gate@ == meta.gate@,
        manifest.allow_http matches Some(hosts) ==> texts(a.meta.allow_http@) == texts(hosts@),
        manifest.allow_http is None ==> texts(a.meta.allow_http@) == texts(meta.allow_http@),
        a.icon == manifest.icon,
        a.meta.rules.len() == manifest.routes.len(),
        0 <= i < manifest.routes.len() ==> a.meta.rules@[i].prefix@ == manifest.routes@[i].path@
            && a.meta.rules@[i].gate@ == manifest.routes@[i].gate@,
{
    if 0 <= i < manifest.routes.len() {
        let rule = a.meta.rules@[i];
        assert(rule.prefix@ == manifest.routes@[i].path@);
    }
}

/// A member of a part is one of the whole.
proof fn lemma_part(before: Seq<Seq<char>>, part: Seq<Seq<char>>, after: Seq<Seq<char>>, i: int)
    requires
        0 <= i < part.len(),
    ensures
        (before + part + after).contains(part[i]),
{
    assert((before + part + after)[before.len() + i] == part[i]);
}

/// What a manifest changes is reported, each by its name: how the app is routed, its
/// gate, the hosts it may call, its icon, and each job that is set or gone.
pub proof fn what_a_manifest_changes_is_reported(
    app: &str,
    manifest: Manifest,
    meta: PageMeta,
    jobs: Table<Job>,
    now: i64,
    j: int,
    k: Seq<char>,
    a: Applied,
)
    requires
        call_ensures(
            apply,
            (app, manifest, meta, jobs, now),
            Ok::<Applied, String>(a),
        ),
    ensures
        manifest.spa == Some(true) && !meta.spa ==> texts(a.changed@).contains("spa = "@ + "true"@),
        manifest.spa == Some(false) && meta.spa ==> texts(a.changed@).contains(
            "spa = "@ + "false"@,
        ),
        manifest.gate matches Some(g) ==> (g@ != meta.gate@ ==> texts(a.changed@).contains(
            "gate = "@ + g@,
        )),
        manifest.allow_http matches Some(hosts) ==> (texts(hosts@) != texts(meta.allow_http@)
            && hosts.len() == 0 ==> texts(a.changed@).contains("allow_http cleared"@)),
        manifest.allow_http matches Some(hosts) ==> (texts(hosts@) != texts(meta.allow_http@)
            && hosts.len() > 0 ==> texts(a.changed@).contains(
            "allow_http = "@ + joined(texts(hosts@), ", "@),
        )),
        manifest.icon is Some ==> texts(a.changed@).contains("icon"@),
        jobs.order().contains(k) && (forall|i: int|
            0 <= i < manifest.jobs.len() ==> (#[trigger] manifest.jobs@[i]).name@ != k) ==> texts(
            a.changed@,
        ).contains("job "@ + k + " removed"@),
        0 <= j < manifest.jobs.len() && !(jobs@.contains_key(manifest.jobs@[j].name@)
            && jobs@[manifest.jobs@[j].name@].schedule@ == manifest.jobs@[j].schedule@
            && jobs@[manifest.jobs@[j].name@].path@ == manifest.jobs@[j].path@) ==> texts(
            a.changed@,
        ).contains("job "@ + manifest.jobs@[j].name@),
        manifest.routes.len() == 0 && meta.rules.len() > 0 ==> a.changed.len() > 0,
        manifest.routes.len() > 0 && meta.rules.len() == 0 ==> a.changed.len() > 0,
{
    let none = Seq::<Seq<char>>::empty();
    let declared = manifest.jobs@;
    let of_meta = meta_changes(manifest, meta);
    let icon: Seq<Seq<char>> = match manifest.icon {
        Some(_) => seq!["icon"@],
        None => none,
    };
    let names = jobs.order();
    let gone = removed_jobs(names, declared, names.len() as int);
    let set = set_jobs(declared, jobs@, declared.len() as int);
    let all = texts(a.changed@);
    assert(all == of_meta + icon + gone + set);
    assert(all.len() == a.changed.len());
    assert(all =~= none + of_meta + (icon + gone + set));
    assert(all =~= of_meta + icon + (gone + set));
    assert(all =~= (of_meta + icon) + gone + set);
    assert(all =~= (of_meta + icon + gone) + set + none);
    if manifest.icon is Some {
        lemma_part(of_meta, icon, gone + set, 0);
    }
    let routes: Seq<Seq<char>> = if routes_stand(manifest.routes@, meta.rules@) {
        none
    } else {
        seq![crate::text::digits(manifest.routes@.len()) + " route rule(s)"@]
    };
    if manifest.spa matches Some(b) && b != meta.spa {
        assert(of_meta[0] == "spa = "@ + truth(manifest.spa->0));
        lemma_part(none, of_meta, icon + gone + set, 0);
    }
    if manifest.gate matches Some(g) && g@ != meta.gate@ {
        let i: int = if manifest.spa matches Some(b) && b != meta.spa {
            1
        } else {
            0
        };
        assert(of_meta[i] == "gate = "@ + manifest.gate->0@);
        lemma_part(none, of_meta, icon + gone + set, i);
    }
    if let Some(hosts) = manifest.allow_http {
        assert(texts(hosts@).len() == hosts.len());
        if texts(hosts@) != texts(meta.allow_http@) {
            let i = of_meta.len() - routes.len() - 1;
            assert(of_meta[i] == if hosts.len() == 0 {
                "allow_http cleared"@
            } else {
                "allow_http = "@ + joined(texts(hosts@), ", "@)
            });
            lemma_part(none, of_meta, icon + gone + set, i);
        }
    }
    if names.contains(k) && forall|i: int|
        0 <= i < manifest.jobs.len() ==> (#[trigger] manifest.jobs@[i]).name@ != k {
        let i = names.index_of(k);
        lemma_gone(names, declared, names.len() as int, i);
        let w = gone.index_of("job "@ + k + " removed"@);
        lemma_part(of_meta + icon, gone, set, w);
    }
    if 0 <= j < declared.len() && !job_stands(declared[j], jobs@) {
        lemma_set(declared, jobs@, declared.len() as int, j);
        let w = set.index_of("job "@ + declared[j].name@);
        lemma_part(of_meta + icon + gone, set, none, w);
    }
    if manifest.routes.len() == 0 && meta.rules.len() > 0 {
        assert(!is_declared(meta.rules@[0], manifest.routes@));
    }
    if manifest.routes.len() > 0 && meta.rules.len() == 0 {
        let route = manifest.routes@[0];
        assert(!rule_stands(route.path@, route.gate@, meta.rules@));
    }
}

proof fn lemma_gone(names: Seq<Seq<char>>, declared: Seq<Declared>, n: int, i: int)
    requires
        0 <= i < n <= names.len(),
        !declares(declared, names[i]),
    ensures
        removed_jobs(names, declared, n).contains("job "@ + names[i] + " removed"@),
    decreases n,
{
    let before = removed_jobs(names, declared, n - 1);
    let all = removed_jobs(names, declared, n);
    let told = "job "@ + names[i] + " removed"@;
    if i < n - 1 {
        lemma_gone(names, declared, n - 1, i);
        let w = before.index_of(told);
        assert(all[w] == told);
    } else {
        assert(all[before.len() as int] == told);
    }
}

proof fn lemma_set(declared: Seq<Declared>, jobs: Map<Seq<char>, Job>, n: int, i: int)
    requires
        0 <= i < n <= declared.len(),
        !job_stands(declared[i], jobs),
    ensures
        set_jobs(declared, jobs, n).contains("job "@ + declared[i].name@),
    decreases n,
{
    let before = set_jobs(declared, jobs, n - 1);
    let all = set_jobs(declared, jobs, n);
    let told = "job "@ + declared[i].name@;
    if i < n - 1 {
        lemma_set(declared, jobs, n - 1, i);
        let w = before.index_of(told);
        assert(all[w] == told);
    } else {
        assert(all[before.len() as int] == told);
    }
}

/// A manifest that says nothing but what is so already changes nothing, and is reported
/// as that.
pub proof fn a_manifest_that_is_met_changes_nothing(
    app: &str,
    manifest: Manifest,
    meta: PageMeta,
    jobs: Table<Job>,
    now: i64,
    a: Applied,
)
    requires
        call_ensures(
            apply,
            (app, manifest, meta, jobs, now),
            Ok::<Applied, String>(a),
        ),
        manifest.spa matches Some(b) ==> b == meta.spa,
        manifest.gate matches Some(g) ==> g@ == meta.gate@,
        manifest.allow_http matches Some(hosts) ==> texts(hosts@) == texts(meta.allow_http@),
        manifest.icon is None,
        manifest.routes.len() == meta.rules.len(),
        forall|i: int|
            0 <= i < meta.rules.len() ==> (#[trigger] meta.rules@[i]).prefix@
                == manifest.routes@[i].path@ && meta.rules@[i].gate@ == manifest.routes@[i].gate@,
        manifest.jobs.len() == 0,
        jobs.order().len() == 0,
    ensures
        a.changed.len() == 0,
{
    assert forall|i: int|
        #![trigger manifest.routes@[i]]
        0 <= i < manifest.routes.len() implies rule_stands(
        manifest.routes@[i].path@,
        manifest.routes@[i].gate@,
        meta.rules@,
    ) by {
        assert(meta.rules@[i].prefix@ == manifest.routes@[i].path@);
    }
    assert forall|j: int|
        #![trigger meta.rules@[j]]
        0 <= j < meta.rules.len() implies is_declared(meta.rules@[j], manifest.routes@) by {
        assert(manifest.routes@[j].path@ == meta.rules@[j].prefix@);
    }
    assert(routes_stand(manifest.routes@, meta.rules@));
    assert(texts(a.changed@).len() == a.changed.len());
}

/// The jobs of an app are those its manifest declares: a job that is not declared is
/// gone, one that did not change keeps its history, and another starts afresh.
pub proof fn the_jobs_are_those_declared(
    app: &str,
    manifest: Manifest,
    meta: PageMeta,
    jobs: Table<Job>,
    now: i64,
    j: int,
    name: Seq<char>,
    a: Applied,
)
    requires
        call_ensures(
            apply,
            (app, manifest, meta, jobs, now),
            Ok::<Applied, String>(a),
        ),
        forall|i: int|
            0 <= i < manifest.jobs.len() && i != j ==> (#[trigger] manifest.jobs@[i]).name@ != name,
        0 <= j < manifest.jobs.len() ==> manifest.jobs@[j].name@ == name,
    ensures
        !(0 <= j < manifest.jobs.len()) ==> !a.jobs@.contains_key(name),
        0 <= j < manifest.jobs.len() ==> {
            let job = manifest.jobs@[j];
            &&& a.jobs@.contains_key(name)
            &&& a.jobs@[name].schedule@ == job.schedule@
            &&& a.jobs@[name].path@ == job.path@
            &&& if jobs@.contains_key(name) && jobs@[name].schedule@ == job.schedule@
                && jobs@[name].path@ == job.path@ {
                a.jobs@[name] == jobs@[name]
            } else {
                a.jobs@[name].last_run is None && a.jobs@[name].last_status is None
            }
        },
{
    let declared = manifest.jobs@;
    let n = declared.len() as int;
    assert(job_applied(declared, jobs@, a.jobs@, name, n));
    lemma_declared_once(declared, jobs@, a.jobs@, name, n, j);
}

proof fn lemma_declared_once(
    declared: Seq<Declared>,
    before: Map<Seq<char>, Job>,
    after: Map<Seq<char>, Job>,
    name: Seq<char>,
    n: int,
    j: int,
)
    requires
        0 <= n <= declared.len(),
        forall|i: int|
            0 <= i < declared.len() && i != j ==> (#[trigger] declared[i]).name@ != name,
        0 <= j < declared.len() ==> declared[j].name@ == name,
        job_applied(declared, before, after, name, n),
    ensures
        !(0 <= j < declared.len()) ==> !after.contains_key(name),
        0 <= j < declared.len() && crate::platform::manifest::job_stands(declared[j], before)
            ==> after.contains_key(name) && after[name] == before[name],
        0 <= j < n && !crate::platform::manifest::job_stands(declared[j], before)
            ==> after.contains_key(name) && crate::platform::schedule::fresh(
            after[name],
            declared[j].schedule@,
            declared[j].path@,
        ),
    decreases n,
{
    if n > 0 {
        let job = declared[n - 1];
        if !(job.name@ == name && !crate::platform::manifest::job_stands(job, before)) {
            lemma_declared_once(declared, before, after, name, n - 1, j);
        }
    } else if 0 <= j < declared.len() {
        assert(declared[j].name@ == name);
        assert(crate::platform::manifest::declares(declared, name));
    } else {
        assert(!crate::platform::manifest::declares(declared, name));
    }
}

/// A page goes to the slug that is asked for, and else to a random one.
pub proof fn a_page_goes_to_the_slug_asked_for(asked: Option<String>, r: String)
    requires
        call_ensures(chosen_slug, (asked,), r),
    ensures
        asked matches Some(s) ==> r@ == s@,
        asked is None ==> is_slug(r@) && r@.len() == 8,
{
}

/// A file that ends in `.html` holds the page of the name before that.
pub proof fn a_page_is_named_by_its_file(name: Seq<char>, file: &str, r: Option<String>)
    requires
        call_ensures(page_in_file, (file,), r),
    ensures
        name.len() > 0 && file@ == name + ".html"@ ==> (r matches Some(n) && n@ == name),
        r matches Some(n) ==> file@ == n@ + ".html"@,
{
    if name.len() > 0 && file@ == name + ".html"@ {
        let s = file@;
        assert(s.subrange(name.len() as int, s.len() as int) =~= ".html"@);
        if let Some(n) = r {
            assert(n@ =~= s.take(s.len() - ".html"@.len()));
            assert(name =~= s.take(s.len() - ".html"@.len()));
        }
    }
}

/// Access that is given is had, and access that is taken is not; an app that cannot be,
/// and an account that is not there, are refused.
pub proof fn access_is_what_was_set(
    accounts: &mut Accounts,
    after: Accounts,
    request: AccessRequest,
    email: &str,
    normal: String,
    app: &str,
    k: int,
    user: User,
    can: bool,
    role: Option<String>,
    r: Told,
)
    requires
        old(accounts).wf(),
        after == *final(accounts),
        email@ == request.email@,
        app@ == request.app@,
        call_ensures(normalise, (email,), normal),
        call_ensures(set_access, (accounts, &request), r),
        0 <= k < old(accounts).users.len(),
        old(accounts).users@[k].email@ == normal@,
        user.id@ == old(accounts).users@[k].id@,
        call_ensures(has_grant, (&after, &user, app), can),
        call_ensures(role_in, (&after, &user, app), role),
    ensures
        r is Done == is_slug(app@),
        is_slug(app@) && request.allow != Some(false) ==> can,
        is_slug(app@) && request.allow != Some(false) && request.role is Some ==> (
        role matches Some(x) && x@ == request.role->0@),
        is_slug(app@) && request.allow != Some(false) && request.role is None ==> (
        role matches Some(x) && x@ == "viewer"@),
        is_slug(app@) && request.allow == Some(false) ==> !can,
        !is_slug(app@) ==> after == *old(accounts),
        after.users@ == old(accounts).users@,
{
    let before = *old(accounts);
    lemma_account(before, k);
    let fits = |g: Grant| is_grant(g, user.id@, app@);
    lemma_first(after.grants@, fits, 0);
    let p = first_from(after.grants@, fits, 0);
    if is_slug(app@) && request.allow != Some(false) {
        lemma_first(before.grants@, fits, 0);
        let q = first_from(before.grants@, fits, 0);
        assert(fits(after.grants@[q]));
        assert forall|j: int| 0 <= j < q implies !fits(#[trigger] after.grants@[j]) by {
            assert(after.grants@[j] == before.grants@[j]);
            assert(!fits(before.grants@[j]));
        }
        lemma_only(after.grants@, fits, q);
    }
    if is_slug(app@) && request.allow == Some(false) {
        let stays = |g: Grant| outlives(g, before.by_email(normal@), app@);
        lemma_kept(before.grants@, stays);
        if p < after.grants.len() {
            assert(fits(after.grants@[p]));
            assert(stays(after.grants@[p]));
        }
    }
}

/// The account of an email in a well-formed table.
proof fn lemma_account(accounts: Accounts, k: int)
    requires
        accounts.wf(),
        0 <= k < accounts.users.len(),
    ensures
        accounts.by_email(accounts.users@[k].email@) == Some(accounts.users@[k]),
        first_from(accounts.users@, has_email(accounts.users@[k].email@), 0) == k,
{
    let fits = has_email(accounts.users@[k].email@);
    assert forall|j: int| 0 <= j < k implies !fits(#[trigger] accounts.users@[j]) by {
        assert(accounts.users@[j].email@ != accounts.users@[k].email@);
    }
    lemma_only(accounts.users@, fits, k);
    lemma_first(accounts.users@, fits, 0);
}

/// An agent turns an account off, which ends its sessions, or on again; no other account
/// changes.
pub proof fn an_agent_turns_accounts_off(
    accounts: &mut Accounts,
    email: &str,
    normal: String,
    active: bool,
    k: int,
    j: int,
    r: Told,
)
    requires
        old(accounts).wf(),
        call_ensures(normalise, (email,), normal),
        call_ensures(set_user_active, (accounts, email, active), r),
        0 <= k < old(accounts).users.len(),
        old(accounts).users@[k].email@ == normal@,
        0 <= j < old(accounts).users.len(),
    ensures
        r is Done,
        final(accounts).users@[k].is_active == active,
        j != k ==> final(accounts).users@[j] == old(accounts).users@[j],
        active ==> final(accounts).sessions@ == old(accounts).sessions@,
        !active ==> forall|i: int|
            0 <= i < final(accounts).sessions.len() ==> (#[trigger] final(
                accounts).sessions@[i]).user_id@ != old(accounts).users@[k].id@,
{
    let before = *old(accounts);
    lemma_account(before, k);
    let fits = of_others(before.users@[k].id@);
    lemma_kept(before.sessions@, fits);
    if !active {
        assert forall|i: int| 0 <= i < final(accounts).sessions.len() implies (#[trigger] final(
            accounts).sessions@[i]).user_id@ != before.users@[k].id@ by {
            assert(fits(before.sessions@.filter(fits)[i]));
        }
    }
}

/// An account that an agent makes is active; it has the password that was given, or
/// waits for one behind a link; and it is an admin's only where that was asked for.
pub proof fn an_account_is_made_as_asked(
    config: Config,
    accounts: &mut Accounts,
    request: CreateUserRequest,
    id: String,
    salt: Vec<u8>,
    token: String,
    given: &str,
    hash: String,
    now: u64,
    r: Told,
)
    requires
        now <= u64::MAX - 172_800,
        given@ == token@,
        call_ensures(hash_token, (given,), hash),
        call_ensures(
            create_user_with,
            (&config, accounts, &request, id, &salt, token, now),
            r,
        ),
    ensures
        r is Refused ==> *final(accounts) == *old(accounts),
        r is Done ==> {
            let a = final(accounts).users@.last();
            &&& final(accounts).users@ == old(accounts).users@.push(a)
            &&& a.id@ == id@
            &&& a.is_active
            &&& a.is_admin == (request.admin == Some(true))
            &&& a.password_hash is Some == request.password is Some
            &&& request.password matches Some(p) ==> p@.len() >= 8 && final(accounts).invitations@
                == old(accounts).invitations@
            &&& request.password is None ==> final(accounts).invitations@.last().token_hash@ == hash@
                && final(accounts).invitations@.last().expires_at == now + 172_800
        },
{
    if r is Done {
        let after = final(accounts).users@;
        assert(after =~= after.drop_last().push(after.last()));
    }
}

/// What chance decides is long: a ticket has 32 characters, a link to enter settings
/// 40.
pub proof fn tickets_and_links_are_long(
    config: &mut Config,
    other: &mut Config,
    slug: &str,
    request: SecretRequest,
    now: u64,
    told: Told,
    link: Told,
)
    requires
        is_slug(slug@),
        is_slug(request.app@),
        call_ensures(create_upload, (config, slug, now), told),
        call_ensures(settings_link, (other, &request, now), link),
    ensures
        exists|t: Seq<char>| t.len() == 32 && #[trigger] final(config).uploads@.contains_key(t)
            && final(config).uploads@[t].slug@ == slug@,
        exists|t: Seq<char>| t.len() == 40 && #[trigger] final(other).uploads@.contains_key(
            "settings:"@ + t,
        ) && final(other).uploads@["settings:"@ + t].slug@ == request.app@,
{
    let t = choose|t: Seq<char>| is_drawn(t, 32) && #[trigger] final(
        config).uploads@.contains_key(t) && final(config).uploads@[t].slug@ == slug@;
    assert(final(config).uploads@.contains_key(t));
    let u = choose|u: Seq<char>| is_drawn(u, 40) && #[trigger] link_made(
        *old(other),
        *final(other),
        request,
        u,
        now,
        link@,
    );
    assert(final(other).uploads@.contains_key("settings:"@ + u));
}

} // verus!
