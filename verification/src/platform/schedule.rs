//! Work an app does without anyone asking: refreshing a cache, pulling from
//! an API, tidying a table.
//!
//! A job is a cron expression and a path. When it fires, the host calls the
//! app's own handler exactly as a request would — same sandbox, same limits,
//! same database, no identity. So a job is just a route the app already has,
//! and nothing new has to be reasoned about to know what it can do.
use crate::config::Config;
use crate::content::serve::GuestRequest;
use crate::content::slug::{is_segment, is_slug, valid_segment, valid_slug};
use crate::content::store::{beside, file_beside};
use crate::runtime::wasm::Guards;
use crate::table::Table;
use crate::text::{decimal, digits, starts_with, strip_suffix, texts};
use std::str::FromStr;
use vstd::prelude::*;

verus! {

/// How often the scheduler looks for work, in seconds. Jobs fire at most once
/// per tick, so this is also the coarsest resolution a schedule really has.
pub const TICK: u64 = 30;

/// The last second that a date can stand for.
pub const LAST_INSTANT: i64 = 8_210_266_876_799;

/// The limits of a job. One that runs long enough to be stuck is not retried on
/// the next tick; it is left alone and reported.
pub fn job_guards() -> (r: Guards)
    ensures
        r.fuel == 2_000_000_000,
        r.memory_bytes == 134_217_728,
        r.wall_clock == 60_000,
{
    Guards { fuel: 2_000_000_000, memory_bytes: 134_217_728, wall_clock: 60_000 }
}

/// A job of an app.
pub struct Job {
    /// Standard cron with seconds leading.
    pub schedule: String,
    /// The path handed to the handler, e.g. `/api/refresh`.
    pub path: String,
    /// Unix seconds. Absent until it has run once.
    pub last_run: Option<u64>,
    /// What happened last time, for whoever is wondering why nothing changed.
    pub last_status: Option<String>,
}

/// The first time at which a schedule fires after an instant, if it ever does,
/// in seconds; or why it is no schedule.
pub uninterp spec fn cron_next(schedule: Seq<char>, since: i64) -> Result<Option<i64>, Seq<char>>;

/// A schedule's next time over mathematical values.
pub open spec fn next_view(r: Result<Option<i64>, String>) -> Result<Option<i64>, Seq<char>> {
    match r {
        Ok(t) => Ok(t),
        Err(e) => Err(e@),
    }
}

/// Whether a next time, where there is one, comes after an instant.
pub open spec fn comes_after(r: Result<Option<i64>, String>, since: i64) -> bool {
    match r {
        Ok(Some(t)) => t > since,
        _ => true,
    }
}

/// `cron::Schedule::from_str` and `Schedule::after` in UTC: the first time after
/// the instant, which the search begins one second after, or the reason why the
/// text is no schedule. A function of the two. The last instant of all is left
/// out: the crate cannot look past it.
#[verifier::external_body]
fn next_after(schedule: &str, since: i64) -> (r: Result<Option<i64>, String>)
    requires
        since != LAST_INSTANT,
    ensures
        next_view(r) == cron_next(schedule@, since),
        comes_after(r, since),
{
    let parsed = cron::Schedule::from_str(schedule).map_err(|e| e.to_string())?;
    Ok(chrono::DateTime::from_timestamp(since, 0)
        .and_then(|after| parsed.after(&after).next())
        .map(|next| next.timestamp()))
}

/// An instant as a date and time, where it is one.
pub uninterp spec fn rfc3339(at: i64) -> Option<Seq<char>>;

/// `chrono::DateTime::from_timestamp` and `to_rfc3339`: the instant written as a
/// date and time in UTC, where it is in the range of dates.
#[verifier::external_body]
pub(crate) fn to_rfc3339(at: i64) -> (r: Option<String>)
    ensures
        r is Some == rfc3339(at) is Some,
        r matches Some(s) ==> rfc3339(at) == Some(s@),
{
    chrono::DateTime::from_timestamp(at, 0).map(|t| t.to_rfc3339())
}

/// Where the jobs of an app are kept, if it can have any.
pub fn path_for(config: &Config, app: &str) -> (r: Option<String>)
    ensures
        match r {
            Some(p) => is_slug(app@) && p@ == beside(*config, app@, ".jobs"@),
            None => !is_slug(app@),
        },
{
    if valid_slug(app) {
        Some(file_beside(config, app, ".jobs"))
    } else {
        None
    }
}

/// Why a job is refused, whatever the app has: by its name, its path, or its
/// schedule, which is read while someone is watching rather than silently never
/// firing.
pub open spec fn job_refusal(
    name: Seq<char>,
    schedule: Seq<char>,
    path: Seq<char>,
    now: i64,
) -> Option<Seq<char>> {
    if !is_segment(name) {
        Some("a job's name must be letters, numbers, '-' or '_'"@)
    } else if !"/"@.is_prefix_of(path) {
        Some("path must start with '/', e.g. /api/refresh"@)
    } else {
        match cron_next(schedule, now) {
            Err(why) => Some(
                why
                    + ". Six fields, seconds first — '0 */5 * * * *' is every five minutes"@,
            ),
            Ok(None) => Some("that schedule never fires"@),
            Ok(Some(_)) => None,
        }
    }
}

/// Checks a job: when it runs next, or why it is refused.
pub fn check_job(name: &str, schedule: &str, path: &str, now: i64) -> (r: Result<i64, String>)
    requires
        now != LAST_INSTANT,
    ensures
        match r {
            Ok(next) => job_refusal(name@, schedule@, path@, now) is None && cron_next(
                schedule@,
                now,
            ) == Ok::<Option<i64>, Seq<char>>(Some(next)),
            Err(m) => job_refusal(name@, schedule@, path@, now) == Some(m@),
        },
{
    if !valid_segment(name) {
        return Err("a job's name must be letters, numbers, '-' or '_'".to_owned());
    }
    if !starts_with(path, "/") {
        return Err("path must start with '/', e.g. /api/refresh".to_owned());
    }
    match next_after(schedule, now) {
        Err(why) => Err(
            why.concat(". Six fields, seconds first — '0 */5 * * * *' is every five minutes"),
        ),
        Ok(None) => Err("that schedule never fires".to_owned()),
        Ok(Some(next)) => Ok(next),
    }
}

/// Whether a job is new: it has the schedule and the path, and never ran.
pub open spec fn fresh(job: Job, schedule: Seq<char>, path: Seq<char>) -> bool {
    job.schedule@ == schedule && job.path@ == path && job.last_run is None && job.last_status
        is None
}

/// The report on a job that was set.
pub open spec fn next_run(next: i64) -> Seq<char> {
    "next run "@ + match rfc3339(next) {
        Some(t) => t,
        None => Seq::empty(),
    }
}

/// Adds or replaces a job.
pub fn set_job(
    jobs: &mut Table<Job>,
    app: &str,
    name: &str,
    schedule: &str,
    path: &str,
    now: i64,
) -> (r: Result<String, String>)
    requires
        now != LAST_INSTANT,
    ensures
        match r {
            Ok(said) => {
                &&& job_refusal(name@, schedule@, path@, now) is None
                &&& is_slug(app@)
                &&& said@ == next_run((cron_next(schedule@, now)->Ok_0)->0)
                &&& final(jobs)@.contains_key(name@)
                &&& fresh(final(jobs)@[name@], schedule@, path@)
                &&& final(jobs)@.remove(name@) == old(jobs)@.remove(name@)
            },
            Err(m) => {
                &&& final(jobs)@ == old(jobs)@
                &&& match job_refusal(name@, schedule@, path@, now) {
                    Some(why) => m@ == why,
                    None => !is_slug(app@) && m@ == "invalid app name '"@ + app@ + "'"@,
                }
            },
        },
{
    let next: i64 = match check_job(name, schedule, path, now) {
        Ok(next) => next,
        Err(m) => {
            return Err(m);
        },
    };
    if !valid_slug(app) {
        return Err("invalid app name '".to_owned().concat(app).concat("'"));
    }
    let job = Job {
        schedule: schedule.to_owned(),
        path: path.to_owned(),
        last_run: None,
        last_status: None,
    };
    jobs.insert(name.to_owned(), job);
    proof {
        assert(jobs@.remove(name@) =~= old(jobs)@.remove(name@));
    }
    let when: String = match to_rfc3339(next) {
        Some(t) => t,
        None => String::new(),
    };
    proof {
        if rfc3339(next) is None {
            assert(when@ =~= Seq::empty());
        }
    }
    Ok("next run ".to_owned().concat(when.as_str()))
}

/// Takes a job away.
pub fn remove_job(jobs: &mut Table<Job>, app: &str, name: &str) -> (r: Result<(), String>)
    ensures
        final(jobs)@ == old(jobs)@.remove(name@),
        match r {
            Ok(_) => old(jobs)@.contains_key(name@),
            Err(m) => !old(jobs)@.contains_key(name@) && m@ == app@ + " has no job called "@ + name@
                && final(jobs)@ == old(jobs)@,
        },
{
    match jobs.remove(name) {
        Some(_) => Ok(()),
        None => {
            proof {
                assert(old(jobs)@.remove(name@) =~= old(jobs)@);
            }
            Err(app.to_owned().concat(" has no job called ").concat(name))
        },
    }
}

/// Since when a job is looked at: from its last run, so a job that missed its
/// turn while the server was down still fires once. With no last run the window
/// is a single tick, so creating a yearly job does not set it off immediately.
pub open spec fn since_of(job: Job, at: u64) -> i64 {
    match job.last_run {
        Some(t) => t as i64,
        None => (if at >= TICK {
            (at - TICK) as u64
        } else {
            0
        }) as i64,
    }
}

/// Whether a job is due: did a scheduled time pass since it last ran? Not "is it
/// that second now": a tick every thirty seconds would otherwise miss almost
/// everything.
pub open spec fn due(job: Job, at: u64) -> bool {
    match cron_next(job.schedule@, since_of(job, at)) {
        Ok(Some(next)) => next as u64 <= at,
        _ => false,
    }
}

/// Whether a job is due at a time. One that has just run is not: it fires once
/// for all the times it missed, not once for each.
pub fn is_due(job: &Job, at: u64) -> (r: bool)
    requires
        since_of(*job, at) != LAST_INSTANT,
    ensures
        r == due(*job, at),
        job.last_run == Some(at) && at <= i64::MAX ==> !r,
{
    let since: u64 = match job.last_run {
        Some(t) => t,
        None => if at >= TICK {
            at - TICK
        } else {
            0
        },
    };
    match next_after(job.schedule.as_str(), #[verifier::truncate] (since as i64)) {
        Ok(Some(next)) => #[verifier::truncate] (next as u64) <= at,
        _ => false,
    }
}

/// Whether only the history of a job changed.
pub open spec fn ran(before: Job, after: Job, status: Seq<char>, now: u64) -> bool {
    &&& after.schedule@ == before.schedule@
    &&& after.path@ == before.path@
    &&& after.last_run == Some(now)
    &&& after.last_status matches Some(s)
    &&& s@ == status
}

/// Records an outcome against a job.
pub fn record_run(jobs: &mut Table<Job>, name: &str, status: &str, now: u64)
    ensures
        final(jobs)@.remove(name@) == old(jobs)@.remove(name@),
        final(jobs)@.contains_key(name@) == old(jobs)@.contains_key(name@),
        old(jobs)@.contains_key(name@) ==> ran(
            old(jobs)@[name@],
            final(jobs)@[name@],
            status@,
            now,
        ),
{
    let job: Job = match jobs.get(name) {
        Some(job) => Job {
            schedule: job.schedule.clone(),
            path: job.path.clone(),
            last_run: Some(now),
            last_status: Some(status.to_owned()),
        },
        None => {
            return;
        },
    };
    jobs.insert(name.to_owned(), job);
    proof {
        assert(jobs@.remove(name@) =~= old(jobs)@.remove(name@));
    }
}

/// Every app that has jobs, found by the files that keep them.
pub fn apps_with_jobs(files: &Vec<String>) -> (r: Vec<String>)
    ensures
        texts(r@) == app_files(texts(files@)),
{
    let mut r: Vec<String> = Vec::new();
    let ghost all = texts(files@);
    let mut i: usize = 0;
    proof {
        assert(texts(r@) =~= Seq::<Seq<char>>::empty());
    }
    while i < files.len()
        invariant
            i <= files.len(),
            all == texts(files@),
            texts(r@) == app_files(all.take(i as int)),
        decreases files.len() - i,
    {
        proof {
            assert(all.take(i + 1).drop_last() =~= all.take(i as int));
            assert(all.take(i + 1).last() == files@[i as int]@);
        }
        if let Some(app) = strip_suffix(files[i].as_str(), ".jobs") {
            let ghost before = r@;
            let ghost name = app@;
            r.push(app);
            assert(texts(r@) =~= texts(before).push(name));
        }
        i += 1;
    }
    proof {
        assert(all.take(all.len() as int) =~= all);
        assert(all.len() == files@.len());
    }
    r
}

/// The apps among a list of files: those that end in `.jobs`.
pub open spec fn app_files(files: Seq<Seq<char>>) -> Seq<Seq<char>>
    decreases files.len(),
{
    if files.len() == 0 {
        Seq::empty()
    } else {
        let before = app_files(files.drop_last());
        if ".jobs"@.is_suffix_of(files.last()) {
            before.push(files.last().take(files.last().len() - ".jobs"@.len()))
        } else {
            before
        }
    }
}

/// Whether a request is the one that a job's handler is handed.
pub open spec fn is_job_request(r: GuestRequest, job: Job, name: Seq<char>) -> bool {
    &&& r.method@ == "GET"@
    &&& r.path@ == job.path@
    &&& r.query@.len() == 0
    &&& r.headers.len() == 1
    &&& r.headers@[0].0@ == "x-toolsite-scheduled"@
    &&& r.headers@[0].1@ == name
    &&& r.body.len() == 0
}

/// What a job's handler is handed. The header says plainly that nobody is
/// waiting on the other end, so a handler can behave differently if it wants
/// to.
pub fn job_request(job: &Job, name: &str) -> (r: GuestRequest)
    ensures
        is_job_request(r, *job, name@),
{
    let mut headers: Vec<(String, String)> = Vec::new();
    headers.push(("x-toolsite-scheduled".to_owned(), name.to_owned()));
    GuestRequest {
        method: "GET".to_owned(),
        path: job.path.clone(),
        query: String::new(),
        headers,
        body: Vec::new(),
    }
}

/// Runs one job now, whatever its schedule says: what its handler is handed, or
/// why there is nothing to run.
pub fn run_job(jobs: &Table<Job>, app: &str, name: &str, has_handler: bool) -> (r: Result<
    GuestRequest,
    String,
>)
    ensures
        match r {
            Ok(request) => jobs@.contains_key(name@) && has_handler && is_job_request(
                request,
                jobs@[name@],
                name@,
            ),
            Err(m) => if !jobs@.contains_key(name@) {
                m@ == app@ + " has no job called "@ + name@
            } else {
                !has_handler && m@ == app@ + " has no handler to run"@
            },
        },
{
    match jobs.get(name) {
        Some(job) => if has_handler {
            Ok(job_request(job, name))
        } else {
            Err(app.to_owned().concat(" has no handler to run"))
        },
        None => Err(app.to_owned().concat(" has no job called ").concat(name)),
    }
}

/// What is recorded of a run: the status it was answered, or how it failed.
pub fn job_status(outcome: Result<u16, String>) -> (r: String)
    ensures
        r@ == match outcome {
            Ok(status) => digits(status as nat),
            Err(e) => "failed: "@ + e@,
        },
{
    match outcome {
        Ok(status) => decimal(status as u64),
        Err(e) => "failed: ".to_owned().concat(e.as_str()),
    }
}

/// The jobs that are running.
pub struct Running {
    keys: Table<()>,
}

impl View for Running {
    type V = Set<Seq<char>>;

    closed spec fn view(&self) -> Set<Seq<char>> {
        self.keys@.dom()
    }
}

/// What a job is known by while it runs.
pub open spec fn job_key(app: Seq<char>, name: Seq<char>) -> Seq<char> {
    app + ":"@ + name
}

impl Running {
    /// No job is running.
    pub fn new() -> (r: Self)
        ensures
            r@ == Set::<Seq<char>>::empty(),
    {
        let keys: Table<()> = Table::new();
        let r = Running { keys };
        assert(r@ =~= Set::<Seq<char>>::empty());
        r
    }

    /// Starts a job, unless it is still running: a slow job is skipped rather
    /// than stacked.
    pub fn start(&mut self, app: &str, name: &str) -> (r: bool)
        ensures
            r == !old(self)@.contains(job_key(app@, name@)),
            final(self)@ == old(self)@.insert(job_key(app@, name@)),
    {
        let key = app.to_owned().concat(":").concat(name);
        let ghost k = key@;
        let r = self.keys.insert(key, ()).is_none();
        assert(self@ =~= old(self)@.insert(k));
        r
    }

    /// Ends a job.
    pub fn finish(&mut self, app: &str, name: &str)
        ensures
            final(self)@ == old(self)@.remove(job_key(app@, name@)),
    {
        let key = app.to_owned().concat(":").concat(name);
        self.keys.remove(key.as_str());
        assert(self@ =~= old(self)@.remove(key@));
    }
}

/// Whether names are those of the jobs that are due at a time.
pub open spec fn are_due(names: Seq<Seq<char>>, jobs: Map<Seq<char>, Job>, at: u64) -> bool {
    forall|k: Seq<char>|
        names.contains(k) == (#[trigger] jobs.contains_key(k) && since_of(jobs[k], at)
            != LAST_INSTANT && due(jobs[k], at))
}

/// The jobs that are due at a time, by name, in order. A job whose last run is
/// the last instant of all is never due again.
pub fn due_jobs(jobs: &Table<Job>, at: u64) -> (r: Vec<String>)
    ensures
        crate::text::in_order(texts(r@)),
        texts(r@).no_duplicates(),
        are_due(texts(r@), jobs@, at),
{
    let names = jobs.names();
    let ghost all = texts(names@);
    let mut r: Vec<String> = Vec::new();
    let mut i: usize = 0;
    proof {
        assert(texts(r@) =~= Seq::<Seq<char>>::empty());
    }
    while i < names.len()
        invariant
            i <= names.len(),
            all == texts(names@),
            crate::text::in_order(all),
            all.no_duplicates(),
            forall|k: Seq<char>| all.contains(k) == #[trigger] jobs@.contains_key(k),
            crate::text::in_order(texts(r@)),
            texts(r@).no_duplicates(),
            forall|k: Seq<char>|
                #![trigger texts(r@).contains(k)]
                texts(r@).contains(k) == (all.take(i as int).contains(k) && since_of(jobs@[k], at)
                    != LAST_INSTANT && due(jobs@[k], at)),
        decreases names.len() - i,
    {
        let ghost name = names@[i as int]@;
        let ghost before = r@;
        let ghost seen = all.take(i as int);
        proof {
            assert(all[i as int] == name);
            assert(all.contains(name));
            assert(all.take(i + 1) =~= seen.push(name));
            assert forall|k: Seq<char>| #[trigger]
                seen.push(name).contains(k) == (seen.contains(k) || k == name) by {
                if seen.contains(k) {
                    let j = seen.index_of(k);
                    assert(seen.push(name)[j] == k);
                }
                if k == name {
                    assert(seen.push(name)[i as int] == k);
                }
                if seen.push(name).contains(k) {
                    let j = seen.push(name).index_of(k);
                    if j < i {
                        assert(seen[j] == k);
                    }
                }
            }
            assert(!seen.contains(name)) by {
                if seen.contains(name) {
                    let j = seen.index_of(name);
                    assert(all[j] == all[i as int]);
                }
            }
            assert(!texts(r@).contains(name));
            assert forall|j: int| 0 <= j < texts(r@).len() implies crate::text::le(
                #[trigger] texts(r@)[j],
                name,
            ) by {
                let k = texts(r@)[j];
                assert(texts(r@).contains(k));
                assert(seen.contains(k));
                let m = seen.index_of(k);
                assert(all[m] == k);
                assert(crate::text::le(all[m], all[i as int]));
            }
        }
        let fires = match jobs.get(names[i].as_str()) {
            Some(job) => {
                let since: u64 = match job.last_run {
                    Some(t) => t,
                    None => if at >= TICK {
                        at - TICK
                    } else {
                        0
                    },
                };
                #[verifier::truncate] (since as i64) != LAST_INSTANT && is_due(job, at)
            },
            None => false,
        };
        proof {
            assert(jobs@.contains_key(name));
            assert(fires == (since_of(jobs@[name], at) != LAST_INSTANT && due(jobs@[name], at)));
        }
        if fires {
            r.push(names[i].clone());
            proof {
                let texts_before = texts(before);
                assert(texts(r@) =~= texts_before.push(name));
                assert forall|k: Seq<char>| #[trigger]
                    texts(r@).contains(k) == (texts_before.contains(k) || k == name) by {
                    if texts_before.contains(k) {
                        let j = texts_before.index_of(k);
                        assert(texts(r@)[j] == k);
                    }
                    if k == name {
                        assert(texts(r@)[texts_before.len() as int] == k);
                    }
                    if texts(r@).contains(k) {
                        let j = texts(r@).index_of(k);
                        if j < texts_before.len() {
                            assert(texts_before[j] == k);
                        }
                    }
                }
            }
        }
        proof {
            let more = all.take(i + 1);
            assert forall|k: Seq<char>|
                #![trigger texts(r@).contains(k)]
                texts(r@).contains(k) == (more.contains(k) && since_of(jobs@[k], at) != LAST_INSTANT
                    && due(jobs@[k], at)) by {
                assert(texts(before).contains(k) == (seen.contains(k) && since_of(jobs@[k], at)
                    != LAST_INSTANT && due(jobs@[k], at)));
                assert(seen.push(name).contains(k) == (seen.contains(k) || k == name));
                if fires {
                    assert(texts(r@).contains(k) == (texts(before).contains(k) || k == name));
                }
            }
        }
        i += 1;
    }
    proof {
        assert(all.take(all.len() as int) =~= all);
        assert(all.len() == names@.len());
    }
    r
}

} // verus!
