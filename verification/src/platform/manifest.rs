//! `toolsite.toml`: an app saying what it needs, rather than someone
//! remembering which commands to run.
//!
//! Configuration belongs with the source, which the platform keeps, so
//! fetching an app brings back the intent as well as the code and a redeploy
//! reproduces it. Commands still work and are the right tool for a one-off;
//! the manifest is for anything meant to survive the session that set it.
//!
//! What it declares, it owns: routes and jobs are replaced wholesale, so
//! deleting a line removes the thing. What it does not mention is left alone,
//! so hiding an app by hand is not undone by the next deploy.
use crate::content::slug::{is_slug, valid_slug};
use crate::content::store::{beside, PageMeta, PathRule};
use crate::platform::schedule::{
    check_job, fresh, job_refusal, set_job, Job as Scheduled, LAST_INSTANT,
};
use crate::table::Table;
use crate::text::{decimal, digits, join, joined, same, starts_with, texts};
use vstd::prelude::*;

verus! {

/// What an app says it needs.
pub struct Manifest {
    /// Named here only so a manifest reads completely; the upload ticket
    /// already decided which app this is.
    pub slug: Option<String>,
    /// Unknown paths serve index.html, for a client-side router.
    pub spa: Option<bool>,
    /// Who may reach the app: public, authenticated, granted.
    pub gate: Option<String>,
    /// Emoji or inline SVG shown beside the app on the index.
    pub icon: Option<String>,
    /// Hosts the handler may reach. Absent leaves whatever is set; an empty
    /// list takes the capability away.
    pub allow_http: Option<Vec<String>>,
    pub routes: Vec<Route>,
    pub jobs: Vec<Job>,
}

/// A gate on part of an app.
pub struct Route {
    pub path: String,
    pub gate: String,
}

/// A job of an app.
pub struct Job {
    pub name: String,
    pub schedule: String,
    pub path: String,
}

/// Whether a gate is one that there is.
pub open spec fn is_gate(s: Seq<char>) -> bool {
    s == "public"@ || s == "authenticated"@ || s == "granted"@
}

/// Whether a gate is one that there is.
pub fn valid_gate(s: &str) -> (r: bool)
    ensures
        r == is_gate(s@),
{
    same(s, "public") || same(s, "authenticated") || same(s, "granted")
}

/// The gates that there are, in words.
pub const GATES: &'static str = "public, authenticated, granted";

/// What is said of a manifest that cannot be read. The reader names the
/// offending key, which is the whole value here: the difference between
/// `[[job]]` and `[[jobs]]` is invisible otherwise.
pub fn unreadable(why: &str) -> (r: String)
    ensures
        r@ == "could not read toolsite.toml: "@ + why@
            + "\nKeys it takes: slug, spa, gate, icon, allow_http, [[route]] (path, gate), [[job]] (name, schedule, path)."@,
{
    "could not read toolsite.toml: ".to_owned().concat(why).concat(
        "\nKeys it takes: slug, spa, gate, icon, allow_http, [[route]] (path, gate), [[job]] (name, schedule, path).",
    )
}

/// Why a route is refused, if it is.
pub open spec fn route_refusal(route: Route) -> Option<Seq<char>> {
    if !"/"@.is_prefix_of(route.path@) {
        Some("route path must start with '/', got "@ + route.path@)
    } else if !is_gate(route.gate@) {
        Some(
            "route "@ + route.path@ + " has gate "@ + route.gate@ + ", which is not one of "@
                + GATES@,
        )
    } else {
        None
    }
}

/// Why the first of the routes from the `i`-th on that is refused is refused.
pub open spec fn routes_refusal(routes: Seq<Route>, i: int) -> Option<Seq<char>>
    decreases routes.len() - i,
{
    if i >= routes.len() {
        None
    } else if route_refusal(routes[i]) is Some {
        route_refusal(routes[i])
    } else {
        routes_refusal(routes, i + 1)
    }
}

/// Whether a job stands already as it is declared: then its history survives.
pub open spec fn job_stands(job: Job, jobs: Map<Seq<char>, Scheduled>) -> bool {
    jobs.contains_key(job.name@) && jobs[job.name@].schedule@ == job.schedule@
        && jobs[job.name@].path@ == job.path@
}

/// Why the first of the jobs from the `i`-th on that would be set and cannot be
/// cannot be.
pub open spec fn jobs_refusal(
    declared: Seq<Job>,
    jobs: Map<Seq<char>, Scheduled>,
    now: i64,
    i: int,
) -> Option<Seq<char>>
    decreases declared.len() - i,
{
    if i >= declared.len() {
        None
    } else {
        let job = declared[i];
        let refused = job_refusal(job.name@, job.schedule@, job.path@, now);
        if !job_stands(job, jobs) && refused is Some {
            refused
        } else {
            jobs_refusal(declared, jobs, now, i + 1)
        }
    }
}

/// Why a manifest is refused. Everything is checked before anything is changed:
/// half an applied manifest is worse than a rejected one.
pub open spec fn manifest_refusal(
    app: Seq<char>,
    manifest: Manifest,
    jobs: Map<Seq<char>, Scheduled>,
    now: i64,
) -> Option<Seq<char>> {
    if manifest.gate matches Some(gate) && !is_gate(gate@) {
        Some("gate must be one of "@ + GATES@)
    } else if routes_refusal(manifest.routes@, 0) is Some {
        routes_refusal(manifest.routes@, 0)
    } else if jobs_refusal(manifest.jobs@, jobs, now, 0) is Some {
        jobs_refusal(manifest.jobs@, jobs, now, 0)
    } else if !is_slug(app) && set_jobs(
        manifest.jobs@,
        jobs,
        manifest.jobs@.len() as int,
    ).len() > 0 {
        Some("invalid app name '"@ + app + "'"@)
    } else {
        None
    }
}

/// What a manifest leads to.
pub struct Applied {
    /// What is kept of the app.
    pub meta: PageMeta,
    /// The icon to write, where one is declared.
    pub icon: Option<String>,
    /// The app's jobs.
    pub jobs: Table<Scheduled>,
    /// What changed, so a deploy says what it did rather than only that it
    /// finished.
    pub changed: Vec<String>,
}

/// A truth value in words.
pub open spec fn truth(b: bool) -> Seq<char> {
    if b {
        "true"@
    } else {
        "false"@
    }
}

/// Whether a rule stands among others.
pub open spec fn rule_stands(path: Seq<char>, gate: Seq<char>, rules: Seq<PathRule>) -> bool {
    exists|j: int|
        #![trigger rules[j]]
        0 <= j < rules.len() && rules[j].prefix@ == path && rules[j].gate@ == gate
}

/// Whether a rule is declared.
pub open spec fn is_declared(rule: PathRule, routes: Seq<Route>) -> bool {
    exists|i: int|
        #![trigger routes[i]]
        0 <= i < routes.len() && routes[i].path@ == rule.prefix@ && routes[i].gate@ == rule.gate@
}

/// Whether the routes that are declared are those that stand already: each of
/// the ones is among the others, both ways.
pub open spec fn routes_stand(routes: Seq<Route>, rules: Seq<PathRule>) -> bool {
    &&& forall|i: int|
        #![trigger routes[i]]
        0 <= i < routes.len() ==> rule_stands(routes[i].path@, routes[i].gate@, rules)
    &&& forall|j: int|
        #![trigger rules[j]]
        0 <= j < rules.len() ==> is_declared(rules[j], routes)
}

/// The texts of an optional list.
pub open spec fn allowed_texts(v: Option<Vec<String>>) -> Option<Seq<Seq<char>>> {
    match v {
        Some(v) => Some(texts(v@)),
        None => None,
    }
}

/// What changes in what is kept of the app, in words.
pub open spec fn meta_changes(manifest: Manifest, meta: PageMeta) -> Seq<Seq<char>> {
    let spa: Seq<Seq<char>> = match manifest.spa {
        Some(b) => if meta.spa != b {
            seq!["spa = "@ + truth(b)]
        } else {
            Seq::empty()
        },
        None => Seq::empty(),
    };
    let gate: Seq<Seq<char>> = match manifest.gate {
        Some(g) => if meta.gate@ != g@ {
            seq!["gate = "@ + g@]
        } else {
            Seq::empty()
        },
        None => Seq::empty(),
    };
    let allow: Seq<Seq<char>> = match allowed_texts(manifest.allow_http) {
        Some(hosts) => if texts(meta.allow_http@) != hosts {
            if hosts.len() == 0 {
                seq!["allow_http cleared"@]
            } else {
                seq!["allow_http = "@ + joined(hosts, ", "@)]
            }
        } else {
            Seq::empty()
        },
        None => Seq::empty(),
    };
    let routes: Seq<Seq<char>> = if routes_stand(manifest.routes@, meta.rules@) {
        Seq::empty()
    } else {
        seq![digits(manifest.routes@.len()) + " route rule(s)"@]
    };
    spa + gate + allow + routes
}

/// Whether what is kept of an app is what the manifest makes of it: what it
/// declares, it owns; what it does not mention is left alone.
pub open spec fn meta_applied(manifest: Manifest, before: PageMeta, after: PageMeta) -> bool {
    &&& after.listed == before.listed
    &&& after.hidden == before.hidden
    &&& after.spa == match manifest.spa {
        Some(b) => b,
        None => before.spa,
    }
    &&& after.gate@ == match manifest.gate {
        Some(g) => g@,
        None => before.gate@,
    }
    &&& texts(after.allow_http@) == match allowed_texts(manifest.allow_http) {
        Some(hosts) => hosts,
        None => texts(before.allow_http@),
    }
    &&& are_rules_of(after.rules@, manifest.routes@)
}

/// Whether rules are the ones that routes declare, one for one.
pub open spec fn are_rules_of(rules: Seq<PathRule>, routes: Seq<Route>) -> bool {
    &&& rules.len() == routes.len()
    &&& forall|i: int|
        #![trigger rules[i]]
        0 <= i < rules.len() ==> rules[i].prefix@ == routes[i].path@ && rules[i].gate@
            == routes[i].gate@
}

/// Whether a job is declared under a name.
pub open spec fn declares(jobs: Seq<Job>, name: Seq<char>) -> bool {
    exists|i: int| #![trigger jobs[i]] 0 <= i < jobs.len() && jobs[i].name@ == name
}

/// The jobs that are removed, in words, from the `i`-th name on.
pub open spec fn removed_jobs(names: Seq<Seq<char>>, declared: Seq<Job>, n: int) -> Seq<Seq<char>>
    decreases n,
{
    if n <= 0 {
        Seq::empty()
    } else {
        let before = removed_jobs(names, declared, n - 1);
        if declares(declared, names[n - 1]) {
            before
        } else {
            before.push("job "@ + names[n - 1] + " removed"@)
        }
    }
}

/// The jobs that are set, in words, among the first `n` that are declared.
pub open spec fn set_jobs(
    declared: Seq<Job>,
    jobs: Map<Seq<char>, Scheduled>,
    n: int,
) -> Seq<Seq<char>>
    decreases n,
{
    if n <= 0 {
        Seq::empty()
    } else {
        let before = set_jobs(declared, jobs, n - 1);
        if job_stands(declared[n - 1], jobs) {
            before
        } else {
            before.push("job "@ + declared[n - 1].name@)
        }
    }
}

/// Whether the job of a name is what the first `n` declarations make of it: the
/// last that sets it decides, and where none does it is what it was, unless the
/// manifest does not declare it.
pub open spec fn job_applied(
    declared: Seq<Job>,
    before: Map<Seq<char>, Scheduled>,
    after: Map<Seq<char>, Scheduled>,
    name: Seq<char>,
    n: int,
) -> bool
    decreases n,
{
    if n <= 0 {
        if declares(declared, name) {
            after.contains_key(name) == before.contains_key(name) && (before.contains_key(name)
                ==> after[name] == before[name])
        } else {
            !after.contains_key(name)
        }
    } else {
        let job = declared[n - 1];
        if job.name@ == name && !job_stands(job, before) {
            after.contains_key(name) && fresh(after[name], job.schedule@, job.path@)
        } else {
            job_applied(declared, before, after, name, n - 1)
        }
    }
}

/// Whether a manifest was applied to an app. `names` are the jobs that there
/// were, in order.
pub open spec fn applied(
    manifest: Manifest,
    meta: PageMeta,
    jobs: Map<Seq<char>, Scheduled>,
    names: Seq<Seq<char>>,
    r: Applied,
) -> bool {
    let declared = manifest.jobs@;
    let icon: Seq<Seq<char>> = match manifest.icon {
        Some(_) => seq!["icon"@],
        None => Seq::empty(),
    };
    &&& meta_applied(manifest, meta, r.meta)
    &&& r.icon == manifest.icon
    &&& forall|k: Seq<char>| #[trigger]
        job_applied(declared, jobs, r.jobs@, k, declared.len() as int)
    &&& texts(r.changed@) == meta_changes(manifest, meta) + icon + removed_jobs(
        names,
        declared,
        names.len() as int,
    ) + set_jobs(declared, jobs, declared.len() as int)
}

/// Whether two lists hold the same texts.
fn same_texts(a: &Vec<String>, b: &Vec<String>) -> (r: bool)
    ensures
        r == (texts(a@) == texts(b@)),
{
    assert(texts(a@).len() == a@.len() && texts(b@).len() == b@.len());
    if a.len() != b.len() {
        return false;
    }
    let mut i: usize = 0;
    while i < a.len()
        invariant
            i <= a.len(),
            a.len() == b.len(),
            forall|j: int| 0 <= j < i ==> #[trigger] texts(a@)[j] == texts(b@)[j],
        decreases a.len() - i,
    {
        if !same(a[i].as_str(), b[i].as_str()) {
            assert(texts(a@)[i as int] != texts(b@)[i as int]);
            return false;
        }
        assert(texts(a@)[i as int] == texts(b@)[i as int]);
        i += 1;
    }
    assert(texts(a@) =~= texts(b@));
    true
}

/// Whether a rule stands among others.
fn has_rule(rules: &Vec<PathRule>, path: &str, gate: &str) -> (r: bool)
    ensures
        r == rule_stands(path@, gate@, rules@),
{
    let mut i: usize = 0;
    while i < rules.len()
        invariant
            i <= rules.len(),
            forall|j: int|
                #![trigger rules@[j]]
                0 <= j < i ==> !(rules@[j].prefix@ == path@ && rules@[j].gate@ == gate@),
        decreases rules.len() - i,
    {
        if same(rules[i].prefix.as_str(), path) && same(rules[i].gate.as_str(), gate) {
            assert(rules@[i as int].prefix@ == path@);
            return true;
        }
        i += 1;
    }
    false
}

/// Whether a rule is declared.
fn has_route(routes: &Vec<Route>, rule: &PathRule) -> (r: bool)
    ensures
        r == is_declared(*rule, routes@),
{
    let mut i: usize = 0;
    while i < routes.len()
        invariant
            i <= routes.len(),
            forall|j: int|
                #![trigger routes@[j]]
                0 <= j < i ==> !(routes@[j].path@ == rule.prefix@ && routes@[j].gate@ == rule.gate@),
        decreases routes.len() - i,
    {
        if same(routes[i].path.as_str(), rule.prefix.as_str()) && same(
            routes[i].gate.as_str(),
            rule.gate.as_str(),
        ) {
            assert(routes@[i as int].path@ == rule.prefix@);
            return true;
        }
        i += 1;
    }
    false
}

/// Whether the routes that are declared are those that stand already.
fn routes_are(routes: &Vec<Route>, rules: &Vec<PathRule>) -> (r: bool)
    ensures
        r == routes_stand(routes@, rules@),
{
    let mut i: usize = 0;
    while i < routes.len()
        invariant
            i <= routes.len(),
            forall|j: int|
                #![trigger routes@[j]]
                0 <= j < i ==> rule_stands(routes@[j].path@, routes@[j].gate@, rules@),
        decreases routes.len() - i,
    {
        if !has_rule(rules, routes[i].path.as_str(), routes[i].gate.as_str()) {
            assert(!rule_stands(routes@[i as int].path@, routes@[i as int].gate@, rules@));
            return false;
        }
        i += 1;
    }
    let mut k: usize = 0;
    while k < rules.len()
        invariant
            k <= rules.len(),
            forall|j: int|
                #![trigger routes@[j]]
                0 <= j < routes.len() ==> rule_stands(routes@[j].path@, routes@[j].gate@, rules@),
            forall|j: int| #![trigger rules@[j]] 0 <= j < k ==> is_declared(rules@[j], routes@),
        decreases rules.len() - k,
    {
        if !has_route(routes, &rules[k]) {
            assert(!is_declared(rules@[k as int], routes@));
            return false;
        }
        k += 1;
    }
    true
}

/// Whether a job is declared under a name.
fn has_job(jobs: &Vec<Job>, name: &str) -> (r: bool)
    ensures
        r == declares(jobs@, name@),
{
    let mut i: usize = 0;
    while i < jobs.len()
        invariant
            i <= jobs.len(),
            forall|j: int| #![trigger jobs@[j]] 0 <= j < i ==> jobs@[j].name@ != name@,
        decreases jobs.len() - i,
    {
        if same(jobs[i].name.as_str(), name) {
            assert(jobs@[i as int].name@ == name@);
            return true;
        }
        i += 1;
    }
    false
}

/// Whether a job stands already as it is declared.
fn stands(job: &Job, jobs: &Table<Scheduled>) -> (r: bool)
    ensures
        r == job_stands(*job, jobs@),
{
    match jobs.get(job.name.as_str()) {
        Some(current) => same(current.schedule.as_str(), job.schedule.as_str()) && same(
            current.path.as_str(),
            job.path.as_str(),
        ),
        None => false,
    }
}

/// Why the first route that is refused is refused.
fn check_routes(routes: &Vec<Route>) -> (r: Option<String>)
    ensures
        match r {
            Some(m) => routes_refusal(routes@, 0) == Some(m@),
            None => routes_refusal(routes@, 0) is None,
        },
{
    let mut i: usize = 0;
    while i < routes.len()
        invariant
            i <= routes.len(),
            routes_refusal(routes@, i as int) == routes_refusal(routes@, 0),
        decreases routes.len() - i,
    {
        let route = &routes[i];
        if !starts_with(route.path.as_str(), "/") {
            return Some(
                "route path must start with '/', got ".to_owned().concat(route.path.as_str()),
            );
        }
        if !valid_gate(route.gate.as_str()) {
            return Some(
                "route ".to_owned().concat(route.path.as_str()).concat(" has gate ").concat(
                    route.gate.as_str(),
                ).concat(", which is not one of ").concat(GATES),
            );
        }
        i += 1;
    }
    None
}

/// Why the first job that would be set and cannot be cannot be.
fn check_jobs(declared: &Vec<Job>, jobs: &Table<Scheduled>, now: i64) -> (r: Option<String>)
    requires
        now != LAST_INSTANT,
    ensures
        match r {
            Some(m) => jobs_refusal(declared@, jobs@, now, 0) == Some(m@),
            None => jobs_refusal(declared@, jobs@, now, 0) is None && forall|i: int|
                0 <= i < declared.len() ==> job_stands(#[trigger] declared@[i], jobs@)
                    || job_refusal(
                    declared@[i].name@,
                    declared@[i].schedule@,
                    declared@[i].path@,
                    now,
                ) is None,
        },
{
    let mut i: usize = 0;
    while i < declared.len()
        invariant
            i <= declared.len(),
            now != LAST_INSTANT,
            jobs_refusal(declared@, jobs@, now, i as int) == jobs_refusal(
                declared@,
                jobs@,
                now,
                0,
            ),
            forall|k: int|
                0 <= k < i ==> job_stands(#[trigger] declared@[k], jobs@) || job_refusal(
                    declared@[k].name@,
                    declared@[k].schedule@,
                    declared@[k].path@,
                    now,
                ) is None,
        decreases declared.len() - i,
    {
        let job = &declared[i];
        if !stands(job, jobs) {
            if let Err(m) = check_job(
                job.name.as_str(),
                job.schedule.as_str(),
                job.path.as_str(),
                now,
            ) {
                return Some(m);
            }
        }
        i += 1;
    }
    None
}

/// The rules that routes declare.
fn rules_of(routes: &Vec<Route>) -> (r: Vec<PathRule>)
    ensures
        are_rules_of(r@, routes@),
{
    let mut r: Vec<PathRule> = Vec::new();
    let mut i: usize = 0;
    while i < routes.len()
        invariant
            i <= routes.len(),
            r.len() == i,
            forall|k: int|
                #![trigger r@[k]]
                0 <= k < i ==> r@[k].prefix@ == routes@[k].path@ && r@[k].gate@ == routes@[k].gate@,
        decreases routes.len() - i,
    {
        r.push(PathRule { prefix: routes[i].path.clone(), gate: routes[i].gate.clone() });
        i += 1;
    }
    r
}

/// Adds a text to a list.
fn note(changed: &mut Vec<String>, text: String)
    ensures
        texts(final(changed)@) == texts(old(changed)@).push(text@),
{
    changed.push(text);
    assert(texts(changed@) =~= texts(old(changed)@).push(text@));
}

/// What a manifest makes of what is kept of an app, and what changes.
fn apply_meta(manifest: &Manifest, meta: PageMeta) -> (r: (PageMeta, Vec<String>))
    ensures
        meta_applied(*manifest, meta, r.0),
        texts(r.1@) == meta_changes(*manifest, meta),
{
    let mut changed: Vec<String> = Vec::new();
    let mut spa = meta.spa;
    let ghost none = Seq::<Seq<char>>::empty();
    let ghost start = meta;
    proof {
        assert(texts(changed@) =~= none);
    }
    let ghost mut c_spa = none;
    if let Some(b) = manifest.spa {
        if spa != b {
            spa = b;
            let word = if b {
                "true"
            } else {
                "false"
            };
            note(&mut changed, "spa = ".to_owned().concat(word));
            proof {
                c_spa = seq!["spa = "@ + truth(b)];
            }
        }
    }
    assert(texts(changed@) =~= c_spa);
    let mut gate = meta.gate;
    let ghost mut c_gate = none;
    if let Some(g) = &manifest.gate {
        if !same(gate.as_str(), g.as_str()) {
            note(&mut changed, "gate = ".to_owned().concat(g.as_str()));
            gate = g.clone();
            proof {
                c_gate = seq!["gate = "@ + g@];
            }
        }
    }
    assert(texts(changed@) =~= c_spa + c_gate);
    let mut allow_http = meta.allow_http;
    let ghost mut c_allow = none;
    if let Some(allow) = &manifest.allow_http {
        if !same_texts(&allow_http, allow) {
            assert(texts(allow@).len() == allow@.len());
            if allow.len() == 0 {
                note(&mut changed, "allow_http cleared".to_owned());
                proof {
                    c_allow = seq!["allow_http cleared"@];
                }
            } else {
                note(&mut changed, "allow_http = ".to_owned().concat(join(allow, ", ").as_str()));
                proof {
                    c_allow = seq!["allow_http = "@ + joined(texts(allow@), ", "@)];
                }
            }
            allow_http = copy_texts(allow);
        }
    }
    assert(texts(changed@) =~= c_spa + c_gate + c_allow);
    // Declared wholesale: a route removed from the file is removed here.
    let rules = rules_of(&manifest.routes);
    let ghost mut c_routes = none;
    if !routes_are(&manifest.routes, &meta.rules) {
        note(
            &mut changed,
            decimal(manifest.routes.len() as u64).concat(" route rule(s)"),
        );
        proof {
            c_routes = seq![digits(manifest.routes@.len()) + " route rule(s)"@];
        }
    }
    assert(texts(changed@) =~= c_spa + c_gate + c_allow + c_routes);
    proof {
        assert(texts(changed@) =~= meta_changes(*manifest, start));
    }
    (
        PageMeta { listed: meta.listed, hidden: meta.hidden, spa, gate, rules, allow_http },
        changed,
    )
}

/// A copy of a list of texts.
fn copy_texts(v: &Vec<String>) -> (r: Vec<String>)
    ensures
        texts(r@) == texts(v@),
{
    let mut r: Vec<String> = Vec::new();
    let mut i: usize = 0;
    proof {
        assert(texts(r@) =~= texts(v@).take(0));
    }
    while i < v.len()
        invariant
            i <= v.len(),
            texts(r@) == texts(v@).take(i as int),
        decreases v.len() - i,
    {
        let ghost before = r@;
        r.push(v[i].clone());
        proof {
            assert(texts(r@) =~= texts(before).push(v@[i as int]@));
            assert(texts(v@).take(i + 1) =~= texts(v@).take(i as int).push(v@[i as int]@));
        }
        i += 1;
    }
    proof {
        assert(texts(v@).take(v@.len() as int) =~= texts(v@));
    }
    r
}

/// Declarations only matter through the jobs they name: a table with the same
/// job of a name is as good.
proof fn lemma_job_applied_same(
    declared: Seq<Job>,
    before: Map<Seq<char>, Scheduled>,
    a: Map<Seq<char>, Scheduled>,
    b: Map<Seq<char>, Scheduled>,
    name: Seq<char>,
    n: int,
)
    requires
        job_applied(declared, before, a, name, n),
        a.contains_key(name) == b.contains_key(name),
        a.contains_key(name) ==> a[name] == b[name],
    ensures
        job_applied(declared, before, b, name, n),
    decreases n,
{
    if n > 0 {
        let job = declared[n - 1];
        if !(job.name@ == name && !job_stands(job, before)) {
            lemma_job_applied_same(declared, before, a, b, name, n - 1);
        }
    }
}

/// Drops the jobs that are not declared, in order, and says so.
fn drop_jobs(
    declared: &Vec<Job>,
    names: &Vec<String>,
    jobs: &mut Table<Scheduled>,
    changed: &mut Vec<String>,
)
    requires
        forall|k: Seq<char>| texts(names@).contains(k) == #[trigger] old(jobs)@.contains_key(k),
    ensures
        texts(final(changed)@) == texts(old(changed)@) + removed_jobs(
            texts(names@),
            declared@,
            names@.len() as int,
        ),
        forall|k: Seq<char>| #[trigger]
            job_applied(declared@, old(jobs)@, final(jobs)@, k, 0),
{
    let ghost all = texts(names@);
    let mut i: usize = 0;
    proof {
        assert(texts(changed@) =~= texts(old(changed)@) + removed_jobs(all, declared@, 0));
    }
    while i < names.len()
        invariant
            i <= names.len(),
            all == texts(names@),
            forall|k: Seq<char>| all.contains(k) == #[trigger] old(jobs)@.contains_key(k),
            texts(changed@) == texts(old(changed)@) + removed_jobs(all, declared@, i as int),
            forall|k: Seq<char>| #[trigger]
                jobs@.contains_key(k) == (old(jobs)@.contains_key(k) && (declares(declared@, k)
                    || !all.take(i as int).contains(k))),
            forall|k: Seq<char>| #[trigger] jobs@.contains_key(k) ==> jobs@[k] == old(jobs)@[k],
        decreases names.len() - i,
    {
        let ghost name = names@[i as int]@;
        let ghost seen = all.take(i as int);
        let ghost so_far = texts(changed@);
        proof {
            assert(all[i as int] == name);
            assert(all.take(i + 1) =~= seen.push(name));
            assert forall|k: Seq<char>| #[trigger]
                seen.push(name).contains(k) == (seen.contains(k) || k == name) by {
                if seen.contains(k) {
                    let j = seen.index_of(k);
                    assert(seen.push(name)[j] == k);
                }
                if k == name {
                    assert(seen.push(name)[i as int] == k);
                }
                if seen.push(name).contains(k) {
                    let j = seen.push(name).index_of(k);
                    if j < i {
                        assert(seen[j] == k);
                    }
                }
            }
        }
        let gone = !has_job(declared, names[i].as_str());
        if gone {
            jobs.remove(names[i].as_str());
            note(changed, "job ".to_owned().concat(names[i].as_str()).concat(" removed"));
        }
        proof {
            assert(texts(changed@) =~= texts(old(changed)@) + removed_jobs(all, declared@, i + 1));
        }
        i += 1;
    }
    proof {
        assert(all.take(all.len() as int) =~= all);
        assert(all.len() == names@.len());
        assert forall|k: Seq<char>| #[trigger]
            job_applied(declared@, old(jobs)@, jobs@, k, 0) by {
            assert(all.contains(k) == old(jobs)@.contains_key(k));
            assert(jobs@.contains_key(k) == (old(jobs)@.contains_key(k) && declares(declared@, k)));
        }
    }
}

/// Sets the jobs that do not stand already, in order, and says so.
fn put_jobs(
    app: &str,
    declared: &Vec<Job>,
    standing: &Vec<bool>,
    jobs: &mut Table<Scheduled>,
    changed: &mut Vec<String>,
    now: i64,
    Ghost(existing): Ghost<Map<Seq<char>, Scheduled>>,
)
    requires
        now != LAST_INSTANT,
        standing.len() == declared.len(),
        forall|i: int|
            0 <= i < standing.len() ==> #[trigger] standing@[i] == job_stands(
                declared@[i],
                existing,
            ),
        is_slug(app@) || set_jobs(declared@, existing, declared@.len() as int).len() == 0,
        forall|k: Seq<char>| #[trigger]
            job_applied(declared@, existing, old(jobs)@, k, 0),
        forall|i: int|
            0 <= i < declared.len() ==> job_stands(#[trigger] declared@[i], existing)
                || job_refusal(
                declared@[i].name@,
                declared@[i].schedule@,
                declared@[i].path@,
                now,
            ) is None,
    ensures
        texts(final(changed)@) == texts(old(changed)@) + set_jobs(
            declared@,
            existing,
            declared@.len() as int,
        ),
        forall|k: Seq<char>| #[trigger]
            job_applied(declared@, existing, final(jobs)@, k, declared@.len() as int),
{
    let mut i: usize = 0;
    proof {
        assert(texts(changed@) =~= texts(old(changed)@) + set_jobs(declared@, existing, 0));
    }
    while i < declared.len()
        invariant
            i <= declared.len(),
            now != LAST_INSTANT,
            standing.len() == declared.len(),
            forall|i: int|
                0 <= i < standing.len() ==> #[trigger] standing@[i] == job_stands(
                    declared@[i],
                    existing,
                ),
            is_slug(app@) || set_jobs(declared@, existing, declared@.len() as int).len() == 0,
            forall|i: int|
                0 <= i < declared.len() ==> job_stands(#[trigger] declared@[i], existing)
                    || job_refusal(
                    declared@[i].name@,
                    declared@[i].schedule@,
                    declared@[i].path@,
                    now,
                ) is None,
            texts(changed@) == texts(old(changed)@) + set_jobs(declared@, existing, i as int),
            forall|k: Seq<char>| #[trigger]
                job_applied(declared@, existing, jobs@, k, i as int),
        decreases declared.len() - i,
    {
        let job = &declared[i];
        let ghost before = jobs@;
        if !standing[i] {
            proof {
                lemma_set_grows(declared@, existing, i + 1, declared@.len() as int);
            }
            let done = set_job(
                jobs,
                app,
                job.name.as_str(),
                job.schedule.as_str(),
                job.path.as_str(),
                now,
            );
            proof {
                assert(done is Ok);
                assert forall|k: Seq<char>| #[trigger]
                    job_applied(declared@, existing, jobs@, k, i + 1) by {
                    assert(job_applied(declared@, existing, before, k, i as int));
                    if k != job.name@ {
                        assert(before.remove(job.name@).contains_key(k) == jobs@.remove(
                            job.name@,
                        ).contains_key(k));
                        if before.contains_key(k) {
                            assert(before.remove(job.name@)[k] == jobs@.remove(job.name@)[k]);
                        }
                        lemma_job_applied_same(declared@, existing, before, jobs@, k, i as int);
                    }
                }
            }
            note(changed, "job ".to_owned().concat(job.name.as_str()));
        } else {
            proof {
                assert forall|k: Seq<char>| #[trigger]
                    job_applied(declared@, existing, jobs@, k, i + 1) by {
                    assert(job_applied(declared@, existing, before, k, i as int));
                }
            }
        }
        proof {
            assert(texts(changed@) =~= texts(old(changed)@) + set_jobs(
                declared@,
                existing,
                i + 1,
            ));
        }
        i += 1;
    }
}

/// What is set is never fewer among more declarations.
proof fn lemma_set_grows(declared: Seq<Job>, jobs: Map<Seq<char>, Scheduled>, a: int, b: int)
    requires
        a <= b,
    ensures
        set_jobs(declared, jobs, a).len() <= set_jobs(declared, jobs, b).len(),
    decreases b,
{
    if a < b && b > 0 {
        lemma_set_grows(declared, jobs, a, b - 1);
    }
}

/// Which of the declared jobs stand already.
fn standing_jobs(declared: &Vec<Job>, jobs: &Table<Scheduled>) -> (r: Vec<bool>)
    ensures
        r.len() == declared.len(),
        forall|i: int| 0 <= i < r.len() ==> #[trigger] r@[i] == job_stands(declared@[i], jobs@),
{
    let mut r: Vec<bool> = Vec::new();
    let mut i: usize = 0;
    while i < declared.len()
        invariant
            i <= declared.len(),
            r.len() == i,
            forall|k: int| 0 <= k < i ==> #[trigger] r@[k] == job_stands(declared@[k], jobs@),
        decreases declared.len() - i,
    {
        r.push(stands(&declared[i], jobs));
        i += 1;
    }
    r
}

/// Applies a manifest to one app: to what is kept of it, and to its jobs, whose
/// history survives where a schedule did not change.
pub fn apply(
    app: &str,
    manifest: Manifest,
    meta: PageMeta,
    jobs: Table<Scheduled>,
    now: i64,
) -> (r: Result<Applied, String>)
    requires
        now != LAST_INSTANT,
    ensures
        match r {
            Ok(a) => manifest_refusal(app@, manifest, jobs@, now) is None && applied(
                manifest,
                meta,
                jobs@,
                jobs.order(),
                a,
            ),
            Err(m) => manifest_refusal(app@, manifest, jobs@, now) == Some(m@),
        },
{
    if let Some(gate) = &manifest.gate {
        if !valid_gate(gate.as_str()) {
            return Err("gate must be one of ".to_owned().concat(GATES));
        }
    }
    if let Some(m) = check_routes(&manifest.routes) {
        return Err(m);
    }
    if let Some(m) = check_jobs(&manifest.jobs, &jobs, now) {
        return Err(m);
    }
    let standing = standing_jobs(&manifest.jobs, &jobs);
    if !valid_slug(app) {
        let mut i: usize = 0;
        while i < standing.len()
            invariant
                i <= standing.len(),
                standing.len() == manifest.jobs.len(),
                forall|k: int|
                    0 <= k < standing.len() ==> #[trigger] standing@[k] == job_stands(
                        manifest.jobs@[k],
                        jobs@,
                    ),
                set_jobs(manifest.jobs@, jobs@, i as int).len() == 0,
                !is_slug(app@),
                manifest_refusal(app@, manifest, jobs@, now) == if set_jobs(
                    manifest.jobs@,
                    jobs@,
                    manifest.jobs@.len() as int,
                ).len() > 0 {
                    Some("invalid app name '"@ + app@ + "'"@)
                } else {
                    None::<Seq<char>>
                },
            decreases standing.len() - i,
        {
            if !standing[i] {
                proof {
                    lemma_set_grows(manifest.jobs@, jobs@, i + 1, manifest.jobs@.len() as int);
                }
                return Err("invalid app name '".to_owned().concat(app).concat("'"));
            }
            i += 1;
        }
    }
    let (meta, changed) = apply_meta(&manifest, meta);
    let mut changed = changed;
    let ghost c_meta = texts(changed@);
    let ghost mut c_icon = Seq::<Seq<char>>::empty();
    if manifest.icon.is_some() {
        note(&mut changed, "icon".to_owned());
        proof {
            c_icon = seq!["icon"@];
        }
    }
    assert(texts(changed@) =~= c_meta + c_icon);
    let names = jobs.names();
    let ghost existing = jobs@;
    let ghost order = jobs.order();
    let mut jobs = jobs;
    drop_jobs(&manifest.jobs, &names, &mut jobs, &mut changed);
    put_jobs(app, &manifest.jobs, &standing, &mut jobs, &mut changed, now, Ghost(existing));
    assert(texts(names@).len() == names@.len());
    Ok(Applied { meta, icon: manifest.icon, jobs, changed })
}

/// A manifest that is refused for any part of it changes nothing: there is
/// nothing to apply.
pub proof fn refused_manifest_applies_nothing(
    app: Seq<char>,
    manifest: Manifest,
    jobs: Map<Seq<char>, Scheduled>,
    now: i64,
    i: int,
)
    requires
        0 <= i < manifest.routes.len(),
        route_refusal(manifest.routes@[i]) is Some,
    ensures
        manifest_refusal(app, manifest, jobs, now) is Some,
{
    lemma_routes_refusal(manifest.routes@, 0, i);
}

proof fn lemma_routes_refusal(routes: Seq<Route>, from: int, i: int)
    requires
        0 <= from <= i < routes.len(),
        route_refusal(routes[i]) is Some,
    ensures
        routes_refusal(routes, from) is Some,
    decreases i - from,
{
    if from < i {
        lemma_routes_refusal(routes, from + 1, i);
    }
}

/// Deleting a line removes the thing: a job that the manifest does not declare
/// is gone, and so is a route. Routes are replaced wholesale: those that stand
/// afterwards are those that are declared, line for line.
pub proof fn undeclared_is_removed(
    manifest: Manifest,
    meta: PageMeta,
    jobs: Map<Seq<char>, Scheduled>,
    names: Seq<Seq<char>>,
    r: Applied,
    name: Seq<char>,
)
    requires
        applied(manifest, meta, jobs, names, r),
    ensures
        !declares(manifest.jobs@, name) ==> !r.jobs@.contains_key(name),
        are_rules_of(r.meta.rules@, manifest.routes@),
        forall|k: int|
            #![trigger r.meta.rules@[k]]
            0 <= k < r.meta.rules.len() ==> is_declared(r.meta.rules@[k], manifest.routes@),
{
    assert forall|k: int| #![trigger r.meta.rules@[k]] 0 <= k < r.meta.rules.len() implies is_declared(
        r.meta.rules@[k],
        manifest.routes@,
    ) by {
        assert(manifest.routes@[k].path@ == r.meta.rules@[k].prefix@);
    }
    let declared = manifest.jobs@;
    assert(job_applied(declared, jobs, r.jobs@, name, declared.len() as int));
    if !declares(declared, name) {
        lemma_undeclared(declared, jobs, r.jobs@, name, declared.len() as int);
    }
}

proof fn lemma_undeclared(
    declared: Seq<Job>,
    before: Map<Seq<char>, Scheduled>,
    after: Map<Seq<char>, Scheduled>,
    name: Seq<char>,
    n: int,
)
    requires
        0 <= n <= declared.len(),
        !declares(declared, name),
        job_applied(declared, before, after, name, n),
    ensures
        !after.contains_key(name),
    decreases n,
{
    if n > 0 {
        assert(declared[n - 1].name@ != name);
        lemma_undeclared(declared, before, after, name, n - 1);
    }
}

/// A job that did not change keeps its history: when it last ran, and how it
/// went.
pub proof fn unchanged_job_keeps_its_history(
    manifest: Manifest,
    meta: PageMeta,
    jobs: Map<Seq<char>, Scheduled>,
    names: Seq<Seq<char>>,
    r: Applied,
    name: Seq<char>,
)
    requires
        applied(manifest, meta, jobs, names, r),
        declares(manifest.jobs@, name),
        forall|i: int|
            0 <= i < manifest.jobs.len() && (#[trigger] manifest.jobs@[i]).name@ == name
                ==> job_stands(manifest.jobs@[i], jobs),
    ensures
        r.jobs@.contains_key(name),
        r.jobs@[name] == jobs[name],
{
    let declared = manifest.jobs@;
    assert(job_applied(declared, jobs, r.jobs@, name, declared.len() as int));
    let k = choose|k: int| #![trigger declared[k]] 0 <= k < declared.len() && declared[k].name@ == name;
    assert(job_stands(declared[k], jobs));
    lemma_unchanged(declared, jobs, r.jobs@, name, declared.len() as int);
}

proof fn lemma_unchanged(
    declared: Seq<Job>,
    before: Map<Seq<char>, Scheduled>,
    after: Map<Seq<char>, Scheduled>,
    name: Seq<char>,
    n: int,
)
    requires
        0 <= n <= declared.len(),
        before.contains_key(name),
        declares(declared, name),
        forall|i: int|
            0 <= i < declared.len() && (#[trigger] declared[i]).name@ == name ==> job_stands(
                declared[i],
                before,
            ),
        job_applied(declared, before, after, name, n),
    ensures
        after.contains_key(name),
        after[name] == before[name],
    decreases n,
{
    if n > 0 {
        let job = declared[n - 1];
        lemma_unchanged(declared, before, after, name, n - 1);
    }
}

/// What a manifest does not mention is left alone: hiding an app by hand is not
/// undone by the next deploy.
pub proof fn unmentioned_is_left_alone(
    manifest: Manifest,
    meta: PageMeta,
    jobs: Map<Seq<char>, Scheduled>,
    names: Seq<Seq<char>>,
    r: Applied,
)
    requires
        applied(manifest, meta, jobs, names, r),
    ensures
        r.meta.hidden == meta.hidden,
        r.meta.listed == meta.listed,
        manifest.spa is None ==> r.meta.spa == meta.spa,
        manifest.gate is None ==> r.meta.gate@ == meta.gate@,
        manifest.allow_http is None ==> texts(r.meta.allow_http@) == texts(meta.allow_http@),
{
}

} // verus!
