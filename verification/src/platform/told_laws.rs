//! What holds of what an agent is told: each law gives the words that stand for what
//! was done.
use crate::accounts::users::{normalise, Accounts};
use crate::config::Config;
use crate::content::slug::is_slug;
use crate::content::store::{page_url, relative_time};
use crate::encode::json_string;
use crate::platform::mcp::{
    app_jobs, app_pulled, app_settings, chosen, create_user_with, is_listed, list_pages,
    listing_json, newest_first, set_access, set_user_active, told_pages, AccessRequest,
    CreateUserRequest, JobStep, Listing, ScheduleRequest, SecretRequest, Tells, Told,
};
use crate::platform::schedule::{cron_next, rfc3339, Job};
use crate::platform::secrets::names;
use crate::runtime::laws::lemma_filtered;
use crate::table::Table;
use crate::text::{digits, in_order, joined, order_is_settled, pairs, texts};
use vstd::prelude::*;

verus! {

/// Of a new account an agent is told its email, whether it is an admin's, and its id; or,
/// where its owner is to choose the password, the link at which they do.
pub proof fn a_new_account_is_told(
    config: Config,
    accounts: &mut Accounts,
    request: CreateUserRequest,
    id: String,
    salt: Vec<u8>,
    token: String,
    now: u64,
    email: &str,
    plain: String,
    standing: Seq<char>,
    said: String,
)
    requires
        call_ensures(
            create_user_with,
            (&config, accounts, &request, id, &salt, token, now),
            Told::Done(said),
        ),
        email@ == request.email@,
        call_ensures(normalise, (email,), plain),
        request.admin == Some(true) ==> standing == " as an admin"@,
        request.admin != Some(true) ==> standing == ""@,
    ensures
        request.password is Some ==> said@ == "created "@ + plain@ + standing + " ("@ + id@ + ")"@,
        request.password is None ==> said@ == "created "@ + plain@ + standing
            + ". Send them this link to choose a password (good for 48 hours, works once):\n"@ + (
        match config.base_url {
            Some(base) => base@,
            None => config.local_base@,
        } + "/auth/setup?token="@ + token@),
{
}

/// The jobs of an app are told line by line, in order: when each runs, what it calls and
/// how it went last.
pub proof fn the_jobs_of_an_app_are_told(
    jobs: &mut Table<Job>,
    request: ScheduleRequest,
    now: i64,
    lines: Seq<Seq<char>>,
    said: String,
)
    requires
        call_ensures(app_jobs, (jobs, &request, now), JobStep::Answer(Told::Done(said))),
        is_slug(request.app@),
        request.name is None,
        lines.len() == old(jobs).order().len(),
        forall|i: int|
            #![trigger lines[i]]
            0 <= i < lines.len() ==> ({
                let name = old(jobs).order()[i];
                let job = old(jobs)@[name];
                lines[i] == name + ": "@ + job.schedule@ + " -> "@ + job.path@ + " (last: "@
                    + match job.last_status {
                    Some(status) => status@,
                    None => "never run"@,
                } + ")"@
            }),
    ensures
        lines.len() == 0 ==> said@ == request.app@ + " has no scheduled jobs"@,
        lines.len() > 0 ==> said@ == joined(lines, "\n"@),
{
    assert(lines =~= crate::platform::mcp::job_lines(*old(jobs)));
}

/// What became of a job is told by its name.
pub proof fn what_became_of_a_job_is_told(
    jobs: &mut Table<Job>,
    request: ScheduleRequest,
    now: i64,
    name: String,
    next: i64,
    time: Seq<char>,
    r: Told,
)
    requires
        call_ensures(app_jobs, (jobs, &request, now), JobStep::Answer(r)),
        is_slug(request.app@),
        request.name == Some(name),
    ensures
        request.schedule matches Some(schedule) ==> (request.path is Some && cron_next(
            schedule@,
            now,
        ) == Ok::<Option<i64>, Seq<char>>(Some(next)) && rfc3339(next) == Some(time) ==> (
        r matches Told::Done(said) ==> said@ == name@ + " scheduled; "@ + ("next run "@ + time))),
        request.schedule is None && request.path is None && old(jobs)@.contains_key(name@) ==> (
        r matches Told::Done(said) && said@ == name@ + " is no longer scheduled"@),
        request.schedule is None && request.path is None && !old(jobs)@.contains_key(name@) ==> (
        r matches Told::Refused(said) && said@ == request.app@ + " has no job called "@ + name@),
        request.schedule is Some != request.path is Some ==> (r matches Told::Refused(said) && said@
            == "give both schedule and path, or neither to remove"@),
{
}

/// What became of a setting is told by its name and never by its value; without a name
/// the names that are set are told, in order.
pub proof fn what_became_of_a_setting_is_told(
    settings: &mut Table<String>,
    k: Vec<u8>,
    request: SecretRequest,
    listed: Vec<String>,
    r: Told,
)
    requires
        call_ensures(app_settings, (settings, &k, &request), r),
        call_ensures(names, (&*old(settings),), listed),
        is_slug(request.app@),
    ensures
        request.name matches Some(n) ==> (request.value is Some ==> (r matches Told::Done(said)
            ==> said@ == n@ + " is set for "@ + request.app@)),
        request.name matches Some(n) ==> (request.value is None ==> (r matches Told::Done(said)
            ==> said@ == n@ + " is gone from "@ + request.app@)),
        request.name is None && listed.len() == 0 ==> (r matches Told::Done(said) && said@
            == request.app@ + " has no settings"@),
        request.name is None && listed.len() > 0 ==> (r matches Told::Done(said) && said@
            == request.app@ + ": "@ + joined(texts(listed@), ", "@)),
{
    let own = texts(listed@);
    let before = old(settings)@;
    assert(own.len() == listed.len());
    if request.name is None {
        let told = choose|told: Seq<Seq<char>>|
            #![trigger in_order(told)]
            in_order(told) && told.no_duplicates() && (forall|k: Seq<char>|
                told.contains(k) == #[trigger] before.contains_key(k)) && r@ == Tells::Done(
                if told.len() == 0 {
                    request.app@ + " has no settings"@
                } else {
                    request.app@ + ": "@ + joined(told, ", "@)
                },
            );
        assert forall|k: Seq<char>| told.contains(k) == #[trigger] own.contains(k) by {
            assert(told.contains(k) == before.contains_key(k));
        }
        lemma_same_list(told, own);
    }
}

/// Two lists in order with the same members, none of them twice, are the same.
proof fn lemma_same_list(a: Seq<Seq<char>>, b: Seq<Seq<char>>)
    requires
        in_order(a),
        in_order(b),
        a.no_duplicates(),
        b.no_duplicates(),
        forall|k: Seq<char>| a.contains(k) == #[trigger] b.contains(k),
    ensures
        a == b,
{
    broadcast use vstd::multiset::group_multiset_axioms;

    a.to_multiset_ensures();
    b.to_multiset_ensures();
    a.lemma_multiset_has_no_duplicates();
    b.lemma_multiset_has_no_duplicates();
    assert forall|k: Seq<char>| a.to_multiset().count(k) == #[trigger] b.to_multiset().count(k) by {
        assert(a.contains(k) == b.contains(k));
        assert(a.contains(k) == (a.to_multiset().count(k) > 0));
        if a.contains(k) {
            assert(a.to_multiset().contains(k));
            assert(b.to_multiset().contains(k));
        }
    }
    assert(a.to_multiset() =~= b.to_multiset());
    order_is_settled(a, b);
}

/// Who can reach an app now, or no longer, is told by their email; and so is whose account
/// was turned off or on.
pub proof fn who_can_reach_an_app_is_told(
    accounts: &mut Accounts,
    other: &mut Accounts,
    request: AccessRequest,
    email: &str,
    active: bool,
    r: Told,
    s: Told,
)
    requires
        call_ensures(set_access, (accounts, &request), r),
        call_ensures(set_user_active, (other, email, active), s),
    ensures
        r matches Told::Done(said) ==> (request.allow != Some(false) ==> said@ == request.email@
            + " can now reach "@ + request.app@),
        r matches Told::Done(said) ==> (request.allow == Some(false) ==> said@ == request.email@
            + " can no longer reach "@ + request.app@),
        s matches Told::Done(said) ==> (active ==> said@ == email@ + " is active again"@),
        s matches Told::Done(said) ==> (!active ==> said@ == email@
            + " is disabled; its sessions are gone"@),
{
}

/// What is listed of a page: whether it is hidden and listed, when it changed in words and
/// as a number, its slug, its title and its URL. Without any page that is said.
pub proof fn what_is_listed_of_a_page(
    config: Config,
    pages: Vec<Listing>,
    include_all: Option<bool>,
    now: u64,
    page: Listing,
    then: u64,
    age: String,
    slug: &str,
    url: String,
    hidden: Seq<char>,
    listed: Seq<char>,
    r: Told,
)
    requires
        call_ensures(list_pages, (&config, pages, include_all, now), r),
        pages.len() > 0 ==> pages@ == seq![page],
        page.modified matches Some(t) ==> t == then,
        call_ensures(relative_time, (then, now), age),
        slug@ == page.slug@,
        call_ensures(page_url, (&config, slug), url),
        hidden == if page.hidden {
            "true"@
        } else {
            "false"@
        },
        listed == if page.listed {
            "true"@
        } else {
            "false"@
        },
    ensures
        pages.len() == 0 || include_all != Some(true) && (page.hidden || !page.listed) ==> (
        r matches Told::Done(said) && said@ == "no pages published yet"@),
        pages.len() > 0 && (include_all == Some(true) || !page.hidden && page.listed) ==> (
        r matches Told::Done(said) && said@ == "["@ + ("{\"hidden\":"@ + hidden + ",\"listed\":"@
            + listed + ",\"modified\":"@ + match page.modified {
            Some(_) => json_string(age@),
            None => "null"@,
        } + ",\"modified_epoch\":"@ + match page.modified {
            Some(_) => digits(then as nat),
            None => "null"@,
        } + ",\"slug\":"@ + json_string(slug@) + ",\"title\":"@ + match page.title {
            Some(title) => json_string(title@),
            None => "null"@,
        } + ",\"url\":"@ + json_string(url@) + "}"@) + "]"@),
{
    let all = chosen(include_all, false);
    let fits = is_listed(all);
    let shown = pages@.filter(fits);
    let rows = choose|rows: Seq<Listing>|
        crate::order::is_ordered_from(rows, shown, newest_first()) && r@ == #[trigger] told_pages(
            config,
            rows,
            now,
        );
    reveal(Seq::filter);
    let none = Seq::<Listing>::empty();
    assert(none.filter(fits) =~= none);
    if pages.len() > 0 {
        assert(pages@.drop_last() =~= none);
        assert(pages@.last() == page);
        if fits(page) {
            assert(shown =~= seq![page]);
            let alike = crate::order::like(newest_first(), page);
            assert(alike(page));
            assert(shown[0] == page);
            lemma_filtered(rows, alike, page);
            lemma_filtered(shown, alike, page);
            assert(shown.contains(page));
            assert(rows.contains(page));
            assert(rows =~= seq![page]);
            let lines = rows.map_values(|l: Listing| listing_json(config, l, now));
            assert(lines.len() == 1);
            assert(lines[0] == listing_json(config, page, now));
            assert(joined(lines, ","@) == lines[0]);
        } else {
            assert(shown =~= none);
        }
    } else {
        assert(pages@ =~= none);
    }
}

/// The pages of an app are handed back as an object, each under its name.
pub proof fn the_pages_of_an_app_are_handed_back(
    app: &str,
    pages: Vec<(String, String)>,
    fields: Seq<Seq<char>>,
    r: Told,
)
    requires
        call_ensures(app_pulled, (app, &pages), r),
        fields.len() == pages.len(),
        forall|i: int|
            #![trigger fields[i]]
            0 <= i < fields.len() ==> fields[i] == json_string(pages@[i].0@) + ":"@ + json_string(
                pages@[i].1@,
            ),
    ensures
        pages.len() > 0 ==> (r matches Told::Done(said) && said@ == "{"@ + joined(fields, ","@)
            + "}"@),
        pages.len() == 0 ==> (r matches Told::Refused(said) && said@ == "no pages found for app '"@
            + app@ + "'"@),
{
    let named = pairs(pages@);
    let own = named.map_values(
        |p: (Seq<char>, Seq<char>)| json_string(p.0) + ":"@ + json_string(p.1),
    );
    assert forall|i: int| 0 <= i < own.len() implies own[i] == #[trigger] fields[i] by {
        assert(named[i] == (pages@[i].0@, pages@[i].1@));
    }
    assert(own =~= fields);
}

} // verus!
