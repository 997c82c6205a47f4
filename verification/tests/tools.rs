//! The tools that an agent calls.
use toolsite::cli::project::find_upload_url;
use toolsite::accounts::users::{has_grant, log_in, sign_up, Accounts};
use toolsite::config::Config;
use toolsite::content::store::{PageMeta, PathRule};
use toolsite::platform::mcp::{
    app_jobs, app_notes, app_pulled, app_settings, chosen_slug, create_upload, create_upload_with,
    create_user, create_user_with, job_ran, list_pages, notes_read, notes_saved, page_in_file,
    page_pulled, pull_app, pull_page, push_app, push_page, run_sql, set_access, set_icon,
    set_user_active, set_visibility, settings_link, settings_link_with, AccessRequest, CreateUserRequest,
    JobStep, Listing, ScheduleRequest, SecretRequest, SetVisibilityRequest, Told, BAD_SLUG,
};
use toolsite::platform::scaffold::{
    guide, handler_files, handler_scaffold, handler_scaffold_named, pack, scaffold_answer, wit,
    ScaffoldQuery, Templates,
};
use toolsite::platform::upload::UPLOAD_TTL;
use toolsite::runtime::db::SqlOutcome;
use toolsite::table::Table;

const NOW: u64 = 1_000_000;

fn config() -> Config {
    Config::local("/data".to_string(), "test-token", true)
}

fn done(text: &str) -> Told {
    Told::Done(text.to_string())
}

fn refused(text: &str) -> Told {
    Told::Refused(text.to_string())
}

#[test]
fn a_page_is_pushed_and_pulled_by_its_slug() {
    let write = push_page(&config(), "a/b").ok().unwrap();
    assert_eq!(write.path, "/data/a/b.html");
    assert_eq!(write.told, done("/p/a/b"));
    assert_eq!(push_page(&config(), "../etc").err().unwrap(), refused(BAD_SLUG));
    assert_eq!(pull_page(&config(), "a/b").ok().unwrap(), "/data/a/b.html");
    assert!(pull_page(&config(), "").is_err());
    assert_eq!(page_pulled("a", Some("<p>".into())), done("<p>"));
    assert_eq!(page_pulled("a", None), refused("no page found for slug 'a'"));
    assert_eq!(chosen_slug(Some("mine".into())), "mine");
    let drawn = chosen_slug(None);
    assert!(!drawn.is_empty() && push_page(&config(), &drawn).is_ok(), "{drawn}");
}

#[test]
fn an_app_is_pushed_whole_or_not_at_all() {
    let pages = vec!["index".to_string(), "about".to_string()];
    let write = push_app(&config(), "app", &pages).ok().unwrap();
    assert_eq!(write.paths, ["/data/app/index.html", "/data/app/about.html"]);
    assert_eq!(write.told, done("about: /p/app/about\nindex: /p/app"));
    assert!(push_app(&config(), "a/b", &pages).is_err());
    assert_eq!(
        push_app(&config(), "app", &vec![]).err().unwrap(),
        refused("pages must not be empty")
    );
    let bad = push_app(&config(), "app", &vec!["ok".into(), "../no".into()]).err().unwrap();
    assert!(matches!(bad, Told::Refused(m) if m.contains("'../no'")));
}

#[test]
fn an_app_is_pulled_page_by_page() {
    assert_eq!(pull_app(&config(), "app").ok().unwrap(), "/data/app");
    assert_eq!(page_in_file("index.html").as_deref(), Some("index"));
    assert_eq!(page_in_file("index.meta"), None);
    let pages = vec![("index".to_string(), "<p>\"hi\"</p>".to_string())];
    assert_eq!(app_pulled("app", &pages), done("{\"index\":\"<p>\\\"hi\\\"</p>\"}"));
    assert_eq!(app_pulled("app", &vec![]), refused("no pages found for app 'app'"));
}

#[test]
fn an_upload_ticket_is_handed_out_for_a_slug() {
    let mut config = config();
    let Told::Done(help) = create_upload_with(&mut config, "app", "drawn".to_string(), NOW) else {
        panic!("refused")
    };
    assert!(help.contains("http://localhost:8080/upload/drawn"), "{help}");
    // What the command line looks for in it.
    assert_eq!(
        find_upload_url(&help).as_deref(),
        Some("http://localhost:8080/upload/drawn")
    );
    let held = config.uploads.get("drawn").unwrap();
    assert_eq!((held.slug.as_str(), held.expires_at), ("app", NOW + UPLOAD_TTL));
    assert_eq!(create_upload(&mut config, "../etc", NOW), refused(BAD_SLUG));
    create_upload(&mut config, "other", NOW);
    assert_eq!(config.uploads.len(), 2);
}

#[test]
fn an_account_is_created_with_a_password_or_invited() {
    let mut accounts = Accounts::new();
    let request = |email: &str, password: Option<&str>, admin: Option<bool>| CreateUserRequest {
        email: email.to_string(),
        password: password.map(str::to_string),
        admin,
    };
    let told = create_user_with(
        &config(),
        &mut accounts,
        &request("boss@example.com", Some("correct horse"), Some(true)),
        "id".to_string(),
        &vec![1; 16],
        "unused".to_string(),
        NOW,
    );
    assert_eq!(told, done("created boss@example.com as an admin (id)"));
    assert!(log_in(&mut accounts, "boss@example.com", "correct horse", NOW).is_ok());

    let invited = create_user_with(
        &config(),
        &mut accounts,
        &request("new@example.com", None, None),
        "id2".to_string(),
        &vec![1; 16],
        "drawn".to_string(),
        NOW,
    );
    let Told::Done(text) = invited else { panic!("refused") };
    assert!(text.ends_with("http://localhost:8080/auth/setup?token=drawn"), "{text}");
    let again = create_user(&config(), &mut accounts, &request("new@example.com", None, None), NOW);
    assert!(matches!(again, Told::Refused(_)));
}

#[test]
fn access_is_given_and_taken() {
    let mut accounts = Accounts::new();
    let user = sign_up(&mut accounts, "a@example.com", "correct horse", NOW).unwrap();
    let request = |app: &str, allow: Option<bool>| AccessRequest {
        app: app.to_string(),
        email: "a@example.com".to_string(),
        allow,
        role: None,
    };
    assert_eq!(
        set_access(&mut accounts, &request("app", None)),
        done("a@example.com can now reach app")
    );
    assert!(has_grant(&accounts, &user, "app"));
    assert_eq!(
        set_access(&mut accounts, &request("app", Some(false))),
        done("a@example.com can no longer reach app")
    );
    assert!(!has_grant(&accounts, &user, "app"));
    assert!(matches!(set_access(&mut accounts, &request("../x", None)), Told::Refused(_)));
    assert_eq!(
        set_user_active(&mut accounts, "a@example.com", false),
        done("a@example.com is disabled; its sessions are gone")
    );
    assert!(matches!(set_user_active(&mut accounts, "b@example.com", false), Told::Refused(_)));
}

#[test]
fn jobs_are_listed_set_run_and_removed() {
    let mut jobs = Table::new();
    let request = |name: Option<&str>, schedule: Option<&str>, path: Option<&str>, now: bool| {
        ScheduleRequest {
            app: "app".to_string(),
            name: name.map(str::to_string),
            schedule: schedule.map(str::to_string),
            path: path.map(str::to_string),
            run_now: Some(now),
        }
    };
    let set = request(Some("refresh"), Some("0 0 * * * *"), Some("/api/x"), false);
    let JobStep::Answer(Told::Done(told)) = app_jobs(&mut jobs, &set, 0) else { panic!("refused") };
    assert_eq!(told, "refresh scheduled; next run 1970-01-01T01:00:00+00:00");
    let JobStep::Answer(Told::Done(listed)) =
        app_jobs(&mut jobs, &request(None, None, None, false), 0)
    else {
        panic!("refused")
    };
    assert!(listed.contains("refresh"), "{listed}");
    assert_eq!(
        app_jobs(&mut jobs, &request(Some("refresh"), None, None, true), 0),
        JobStep::Run("refresh".to_string())
    );
    assert_eq!(
        app_jobs(&mut jobs, &request(Some("refresh"), Some("x"), None, false), 0),
        JobStep::Answer(refused("give both schedule and path, or neither to remove"))
    );
    assert_eq!(
        app_jobs(&mut jobs, &request(Some("refresh"), None, None, false), 0),
        JobStep::Answer(done("refresh is no longer scheduled"))
    );
    assert_eq!(job_ran("refresh", Ok("200".into())), done("refresh ran: 200"));
    assert_eq!(job_ran("refresh", Err("no".into())), refused("no"));
}

#[test]
fn settings_are_told_by_name_only() {
    let (mut settings, key) = (Table::new(), vec![5u8; 32]);
    let request = |name: Option<&str>, value: Option<&str>| SecretRequest {
        app: "app".to_string(),
        name: name.map(str::to_string),
        value: value.map(str::to_string),
        link: None,
    };
    assert_eq!(
        app_settings(&mut settings, &key, &request(None, None)),
        done("app has no settings")
    );
    assert_eq!(
        app_settings(&mut settings, &key, &request(Some("API_KEY"), Some("hunter2"))),
        done("API_KEY is set for app")
    );
    assert_eq!(
        app_settings(&mut settings, &key, &request(None, None)),
        done("app: API_KEY")
    );
    assert_eq!(
        app_settings(&mut settings, &key, &request(Some("API_KEY"), None)),
        done("API_KEY is gone from app")
    );
    let mut config = config();
    let Told::Done(link) =
        settings_link_with(&mut config, &request(None, None), "drawn".to_string(), NOW)
    else {
        panic!("refused")
    };
    assert!(link.contains("http://localhost:8080/settings/drawn"), "{link}");
    let Told::Done(first) = settings_link(&mut config, &request(None, None), NOW) else {
        panic!("refused")
    };
    let Told::Done(second) = settings_link(&mut config, &request(None, None), NOW) else {
        panic!("refused")
    };
    assert_ne!(first, second);
}

#[test]
fn notes_are_kept_beside_the_page() {
    assert_eq!(app_notes(&config(), "a/b").ok().unwrap(), "/data/a/b.notes");
    assert!(app_notes(&config(), "..").is_err());
    assert_eq!(notes_saved("a", "why"), done("saved 3 characters of notes for a"));
    assert_eq!(notes_read("a", Some("why".into())), done("why"));
    assert_eq!(notes_read("a", None), done("no notes for a yet"));
}

fn listing(slug: &str, modified: u64, listed: bool, hidden: bool) -> Listing {
    Listing {
        slug: slug.to_string(),
        title: Some(format!("\"{slug}\"")),
        modified: Some(modified),
        listed,
        hidden,
    }
}

#[test]
fn pages_are_listed_newest_first() {
    let pages = || {
        vec![
            listing("old", NOW - 7_200, true, false),
            listing("quiet", NOW, false, false),
            listing("new", NOW - 60, true, false),
        ]
    };
    let Told::Done(text) = list_pages(&config(), pages(), None, NOW) else { panic!("refused") };
    assert_eq!(
        text,
        "[{\"hidden\":false,\"listed\":true,\"modified\":\"1m ago\",\"modified_epoch\":999940,\
         \"slug\":\"new\",\"title\":\"\\\"new\\\"\",\"url\":\"/p/new\"},\
         {\"hidden\":false,\"listed\":true,\"modified\":\"2h ago\",\"modified_epoch\":992800,\
         \"slug\":\"old\",\"title\":\"\\\"old\\\"\",\"url\":\"/p/old\"}]"
    );
    let Told::Done(all) = list_pages(&config(), pages(), Some(true), NOW) else { panic!() };
    assert!(all.contains("quiet"));
}

#[test]
fn visibility_is_changed_and_nothing_else() {
    let request = |hidden: Option<bool>, gate: Option<&str>, path: Option<&str>| {
        SetVisibilityRequest {
            slug: "app".to_string(),
            hidden,
            listed: None,
            gate: gate.map(str::to_string),
            path: path.map(str::to_string),
        }
    };
    let meta = || PageMeta { spa: true, ..PageMeta::default() };
    let (after, _) =
        set_visibility(&config(), &request(Some(true), None, None), true, meta()).ok().unwrap();
    assert!(after.hidden && after.listed && after.spa);

    let (after, _) =
        set_visibility(&config(), &request(None, Some("granted"), Some("/x")), true, after)
            .ok()
            .unwrap();
    assert_eq!((after.gate.as_str(), after.gate_for("/x/y").as_str()), ("public", "granted"));
    // A second rule for the same part replaces the first, and none removes it.
    let (after, _) =
        set_visibility(&config(), &request(None, Some("public"), Some("/x")), true, after)
            .ok()
            .unwrap();
    assert_eq!(after.rules.len(), 1);
    let (after, _) =
        set_visibility(&config(), &request(None, None, Some("/x")), true, after).ok().unwrap();
    assert!(after.rules.is_empty());
    assert_eq!(
        set_visibility(&config(), &request(None, None, Some("/x")), true, after).err().unwrap(),
        refused("app has no rule for /x")
    );
    assert!(set_visibility(&config(), &request(None, None, None), true, meta()).is_err());
    assert!(set_visibility(&config(), &request(None, Some("odd"), None), true, meta()).is_err());
    assert!(set_visibility(&config(), &request(Some(true), None, None), false, meta()).is_err());
    let rule = PathRule { prefix: "/a".to_string(), gate: "granted".to_string() };
    let kept = PageMeta { rules: vec![rule], ..meta() };
    let (after, _) =
        set_visibility(&config(), &request(None, Some("granted"), None), true, kept).ok().unwrap();
    assert_eq!((after.gate.as_str(), after.rules.len()), ("granted", 1));
}

#[test]
fn an_icon_is_set_for_a_page_that_is_there() {
    let write = set_icon(&config(), "app", " 📋 ", false, true).ok().unwrap();
    assert_eq!((write.path.as_str(), write.icon.as_str()), ("/data/app/index.icon", "📋"));
    assert_eq!(set_icon(&config(), "app", "x", true, true).ok().unwrap().path, "/data/app.icon");
    assert!(set_icon(&config(), "app", " ", true, true).is_err());
    assert!(set_icon(&config(), "app", "x", false, false).is_err());
}

#[test]
fn sql_is_told_as_json_or_refused() {
    let outcome = SqlOutcome::new(vec!["a".to_string()]);
    assert_eq!(
        run_sql(Ok(outcome)),
        done("{\"columns\":[\"a\"],\"rows\":[],\"rows_affected\":0,\"truncated\":false}")
    );
    assert_eq!(run_sql(Err("no such table".into())), refused("no such table"));
}

fn templates() -> Templates {
    Templates {
        cargo: "name = \"NAME-handler\"".to_string(),
        lib: "// code".to_string(),
        migration: "create table t (a);".to_string(),
        wit: "package toolsite:app;".to_string(),
    }
}

fn unpacked(bytes: &[u8]) -> Vec<(String, String)> {
    let mut archive = tar::Archive::new(flate2::read::GzDecoder::new(bytes));
    archive
        .entries()
        .unwrap()
        .map(|entry| {
            let mut entry = entry.unwrap();
            let path = entry.path().unwrap().to_string_lossy().to_string();
            let mut text = String::new();
            std::io::Read::read_to_string(&mut entry, &mut text).unwrap();
            (path, text)
        })
        .collect()
}

#[test]
fn a_scaffold_comes_as_an_archive_under_the_apps_name() {
    let query = ScaffoldQuery { app: Some("board".to_string()) };
    let download = handler_scaffold(&config(), &query, &templates()).ok().unwrap();
    assert_eq!(download.content_type, "application/gzip");
    assert_eq!(download.disposition, "attachment; filename=\"board-handler.tar.gz\"");
    let files = unpacked(&download.body);
    assert_eq!(files[0].0, "board-handler/Cargo.toml");
    assert_eq!(files[0].1, "name = \"board-handler\"");
    assert_eq!(files[1], ("board-handler/src/lib.rs".into(), "// code".into()));
    assert_eq!(files[3].0, "board-handler/wit/toolsite.wit");
    assert!(files[4].1.contains("http://localhost:8080"), "{}", files[4].1);
    assert_eq!(files.len(), handler_files(&templates(), "board", "b").len());

    let named = handler_scaffold_named(&config(), "x".to_string(), &templates()).ok().unwrap();
    assert!(named.disposition.contains("x-handler"));
    let unnamed = handler_scaffold(&config(), &ScaffoldQuery { app: None }, &templates());
    assert!(unnamed.ok().unwrap().disposition.contains("myapp-handler"));
    let bad = ScaffoldQuery { app: Some("../x".to_string()) };
    assert_eq!(handler_scaffold(&config(), &bad, &templates()).err().unwrap().status, 400);
    assert_eq!(scaffold_answer("x", None).err().unwrap().status, 500);
}

#[test]
fn files_come_out_of_an_archive_as_they_went_in() {
    let files = vec![("a.txt".to_string(), "é".to_string()), ("b/c.txt".into(), String::new())];
    let packed = pack("app", &files).unwrap();
    assert_eq!(
        unpacked(&packed),
        [
            ("app-handler/a.txt".to_string(), "é".to_string()),
            ("app-handler/b/c.txt".to_string(), String::new()),
        ]
    );
    assert_eq!(guide("# hi").body, "# hi");
    assert_eq!(wit("package x;").status, 200);
}
