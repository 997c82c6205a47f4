//! Jobs and manifests.
use toolsite::content::store::PageMeta;
use toolsite::platform::manifest::{apply, unreadable, Applied, Job, Manifest, Route};
use toolsite::platform::schedule::{
    self, apps_with_jobs, due_jobs, is_due, job_guards, job_request, job_status, path_for,
    record_run, remove_job, run_job, set_job, Running,
};
use toolsite::config::Config;
use toolsite::runtime::wasm::{Guards, ModuleCache, MAX_CACHED_MODULES};
use toolsite::table::Table;

// 2026-01-01T00:00:00Z.
const NOW: i64 = 1_767_225_600;

fn scheduled(schedule: &str, last_run: Option<u64>) -> schedule::Job {
    schedule::Job {
        schedule: schedule.to_string(),
        path: "/api/x".to_string(),
        last_run,
        last_status: None,
    }
}

#[test]
fn a_schedule_is_checked_when_it_is_set_not_when_it_should_fire() {
    let mut jobs = Table::new();
    let next = set_job(&mut jobs, "app", "refresh", "0 */5 * * * *", "/api/refresh", NOW).unwrap();
    assert_eq!(next, "next run 2026-01-01T00:05:00+00:00");

    let error =
        set_job(&mut jobs, "app", "refresh", "not a schedule", "/api/x", NOW).unwrap_err();
    assert!(error.contains("Six fields"), "the error should show the shape: {error}");
    // A path a handler could never receive is refused too.
    assert!(set_job(&mut jobs, "app", "refresh", "0 * * * * *", "api/x", NOW).is_err());
    assert_eq!(jobs.get("refresh").unwrap().path, "/api/refresh");
}

#[test]
fn a_job_is_due_when_a_scheduled_time_has_passed_since_it_last_ran() {
    // Fixed instants rather than the wall clock: on a minute schedule, "a
    // second ago" is or is not due depending on where in the minute the test
    // happens to run.
    const BOUNDARY: u64 = 1_000_000_020; // divisible by 60
    let at = BOUNDARY + 10;

    // Last ran before the boundary, so that minute came round: due.
    assert!(is_due(&scheduled("0 * * * * *", Some(BOUNDARY - 20)), at));
    // Ran after it, and the next one has not arrived: not due.
    assert!(!is_due(&scheduled("0 * * * * *", Some(BOUNDARY + 5)), at));
    // Down for an hour: it fires once, not once per missed minute.
    assert!(is_due(&scheduled("0 * * * * *", Some(BOUNDARY - 3600)), at));
}

#[test]
fn a_yearly_job_is_not_due_just_because_it_never_ran() {
    // Without a last run the window is one tick, not all of history, so a rare
    // job does not fire the moment it is created.
    let new_year = scheduled("0 0 0 1 1 *", None);
    assert!(!is_due(&new_year, NOW as u64 + 86_400));
    assert!(is_due(&new_year, NOW as u64 + 10));
}

#[test]
fn jobs_belong_to_one_app() {
    let config = Config::local("/data".to_string(), "test-token", true);
    assert_eq!(path_for(&config, "mine").unwrap(), "/data/mine.jobs");
    assert_ne!(path_for(&config, "mine"), path_for(&config, "theirs"));
    assert_eq!(path_for(&config, "../etc"), None);

    let (mut mine, mut theirs) = (Table::new(), Table::new());
    set_job(&mut mine, "mine", "refresh", "0 * * * * *", "/api/x", NOW).unwrap();
    assert_eq!(theirs.len(), 0);
    assert!(remove_job(&mut theirs, "theirs", "refresh").is_err());
    assert!(remove_job(&mut mine, "mine", "refresh").is_ok());
}

#[test]
fn a_run_is_recorded_and_runs_do_not_pile_up() {
    let mut jobs = Table::new();
    jobs.insert("refresh".to_string(), scheduled("0 * * * * *", None));
    jobs.insert("yearly".to_string(), scheduled("0 0 0 1 1 *", None));
    let at = NOW as u64 + 86_400 + 60;
    assert_eq!(due_jobs(&jobs, at), ["refresh"]);
    record_run(&mut jobs, "refresh", "200", at);
    assert_eq!(jobs.get("refresh").unwrap().last_status.as_deref(), Some("200"));
    assert_eq!(jobs.get("refresh").unwrap().last_run, Some(at));
    assert!(due_jobs(&jobs, at + 1).is_empty());

    let mut running = Running::new();
    assert!(running.start("app", "refresh"));
    assert!(!running.start("app", "refresh"));
    assert!(running.start("other", "refresh"));
    running.finish("app", "refresh");
    assert!(running.start("app", "refresh"));
}

#[test]
fn a_job_calls_its_apps_handler_as_the_host() {
    let request = job_request(&scheduled("0 * * * * *", None), "refresh");
    assert_eq!((request.method.as_str(), request.path.as_str()), ("GET", "/api/x"));
    assert!(request
        .headers
        .contains(&("x-toolsite-scheduled".to_string(), "refresh".to_string())));
    assert_eq!(job_status(Ok(204)), "204");
    assert!(job_status(Err("trap".to_string())).contains("trap"));
    assert!(job_guards().wall_clock > Guards::default().wall_clock);
    assert_eq!(
        apps_with_jobs(&vec!["b.jobs".into(), "a.meta".into(), "a.jobs".into()]).len(),
        2
    );
}

fn manifest() -> Manifest {
    Manifest {
        slug: None,
        spa: None,
        gate: None,
        icon: None,
        allow_http: None,
        routes: vec![],
        jobs: vec![],
    }
}

fn rollup() -> Vec<Job> {
    vec![Job {
        name: "rollup".to_string(),
        schedule: "0 0 3 * * *".to_string(),
        path: "/api/rollup".to_string(),
    }]
}

fn route(path: &str, gate: &str) -> Vec<Route> {
    vec![Route { path: path.to_string(), gate: gate.to_string() }]
}

fn applied(manifest: Manifest, before: Applied) -> Result<Applied, String> {
    apply("board", manifest, before.meta, before.jobs, NOW)
}

fn nothing() -> Applied {
    Applied { meta: PageMeta::default(), icon: None, jobs: Table::new(), changed: vec![] }
}

#[test]
fn a_manifest_sets_what_commands_would_have() {
    let declared = Manifest {
        slug: Some("board".to_string()),
        spa: Some(true),
        gate: Some("public".to_string()),
        icon: Some("📋".to_string()),
        routes: route("/triage", "authenticated"),
        jobs: rollup(),
        ..manifest()
    };
    let after = applied(declared, nothing()).ok().unwrap();
    assert!(!after.changed.is_empty());
    assert!(after.meta.spa);
    assert_eq!(after.meta.gate_for("/"), "public");
    assert_eq!(after.meta.gate_for("/triage"), "authenticated");
    assert_eq!(after.icon.as_deref(), Some("📋"));
    assert_eq!(after.jobs.len(), 1);
}

#[test]
fn removing_a_line_removes_the_thing() {
    let declared =
        Manifest { routes: route("/triage", "granted"), jobs: rollup(), ..manifest() };
    let before = applied(declared, nothing()).ok().unwrap();

    // The manifest owns what it declares, so an empty one clears them.
    let cleared = Manifest { gate: Some("public".to_string()), ..manifest() };
    let after = applied(cleared, before).ok().unwrap();
    assert!(after.meta.rules.is_empty());
    assert_eq!(after.jobs.len(), 0);
}

#[test]
fn a_line_written_twice_keeps_nothing_that_is_not_declared() {
    let mut two = route("/a", "granted");
    two.extend(route("/b", "public"));
    let before = applied(Manifest { routes: two, ..manifest() }, nothing()).ok().unwrap();
    assert_eq!(before.meta.rules.len(), 2);

    let mut twice = route("/a", "granted");
    twice.extend(route("/a", "granted"));
    let after = applied(Manifest { routes: twice, ..manifest() }, before).ok().unwrap();
    assert!(after.meta.rules.iter().all(|rule| rule.prefix == "/a"), "an undeclared rule stands");
    assert_eq!(after.changed, ["2 route rule(s)"]);

    // The same lines in another order say nothing new.
    let mut there = route("/b", "public");
    there.extend(route("/a", "granted"));
    let mut back = route("/a", "granted");
    back.extend(route("/b", "public"));
    let before = applied(Manifest { routes: there, ..manifest() }, nothing()).ok().unwrap();
    let after = applied(Manifest { routes: back, ..manifest() }, before).ok().unwrap();
    assert!(after.changed.is_empty());
}

#[test]
fn a_job_that_did_not_change_keeps_its_history() {
    let declared = || Manifest { jobs: rollup(), ..manifest() };
    let mut before = applied(declared(), nothing()).ok().unwrap();

    // Pretend it ran.
    record_run(&mut before.jobs, "rollup", "200", NOW as u64);
    let after = applied(declared(), before).ok().unwrap();
    assert_eq!(
        after.jobs.get("rollup").unwrap().last_status.as_deref(),
        Some("200"),
        "redeploying forgot when the job last ran"
    );
}

#[test]
fn nothing_is_written_when_part_of_it_is_wrong() {
    let wrong = Manifest {
        gate: Some("authenticated".to_string()),
        routes: route("triage", "public"),
        ..manifest()
    };
    let error = applied(wrong, nothing()).err().unwrap();
    assert!(error.contains("must start with '/'"), "got {error}");
}

#[test]
fn outbound_hosts_come_from_the_manifest_and_default_to_none() {
    assert!(nothing().meta.allow_http.is_empty());

    let some = Manifest { allow_http: Some(vec!["api.github.com".to_string()]), ..manifest() };
    let after = applied(some, nothing()).ok().unwrap();
    assert_eq!(after.meta.allow_http, ["api.github.com"]);

    // Not mentioning it leaves it, and an empty list is a decision, not an
    // omission: it takes it away.
    let after = applied(manifest(), after).ok().unwrap();
    assert_eq!(after.meta.allow_http, ["api.github.com"]);
    let none = Manifest { allow_http: Some(vec![]), ..manifest() };
    assert!(applied(none, after).ok().unwrap().meta.allow_http.is_empty());
}

#[test]
fn a_gate_nobody_defined_is_refused() {
    let odd = Manifest { gate: Some("sort-of-public".to_string()), ..manifest() };
    assert!(applied(odd, nothing()).is_err());
    let odd = Manifest { routes: route("/a", "sort-of-public"), ..manifest() };
    assert!(applied(odd, nothing()).is_err());
}

#[test]
fn a_manifest_that_cannot_be_read_says_what_was_meant() {
    let said = unreadable("unknown field `jobs`");
    assert!(said.contains("jobs"), "the error should name the key: {said}");
    assert!(said.contains("[[job]]"), "and say what was meant: {said}");
}

#[test]
fn compiled_modules_are_reused() {
    let mut cache = ModuleCache::new();
    assert!(!cache.touch("adder", 1));
    assert_eq!(cache.keep("adder", 1), None);
    assert!(cache.touch("adder", 2));
    assert_eq!(cache.len(), 1);
}

#[test]
fn the_module_cache_is_bounded() {
    let mut cache = ModuleCache::new();
    for i in 0..MAX_CACHED_MODULES + 8 {
        let evicted = cache.keep(&format!("module-{i}"), i as u64);
        // What was used longest ago goes first.
        let expected =
            (i >= MAX_CACHED_MODULES).then(|| format!("module-{}", i - MAX_CACHED_MODULES));
        assert_eq!(evicted, expected);
    }
    assert!(cache.len() <= MAX_CACHED_MODULES);
}

#[test]
fn a_deadline_is_counted_in_ticks() {
    let guards = Guards { wall_clock: 100, ..Guards::default() };
    assert_eq!(guards.ticks(), 2);
    assert!(Guards { wall_clock: 1, ..guards }.ticks() >= 1);
}

#[test]
fn a_job_is_run_whatever_its_schedule_says() {
    let mut jobs = Table::new();
    jobs.insert("refresh".to_string(), scheduled("0 0 0 1 1 *", None));
    let request = run_job(&jobs, "app", "refresh", true).ok().unwrap();
    assert_eq!(request.method, "GET");
    assert_eq!(request.headers, [("x-toolsite-scheduled".to_string(), "refresh".to_string())]);
    assert_eq!(
        run_job(&jobs, "app", "other", true).err().unwrap(),
        "app has no job called other"
    );
    assert_eq!(
        run_job(&jobs, "app", "refresh", false).err().unwrap(),
        "app has no handler to run"
    );
}
