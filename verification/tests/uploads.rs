//! Uploads, downloads and removals.
use toolsite::config::Config;
use toolsite::content::bundle::Unpacked;
use toolsite::content::store::PageMeta;
use toolsite::platform::trash::{remove, remove_page_only, sidecar_name, SIDECARS};
use toolsite::platform::upload::{
    bundle_unpacked, download, handler_checked, manifest_applied, mark_spa, migrated,
    migrations_read, page_read, query_flags, source_read, store_upload, ticket_slug, upload_kind, upload_query,
    upload_url, written, DownloadStep, Migrated, Unpacking, UploadKind, UploadStep, UploadTicket,
    MAX_ICON_BYTES,
};

const NOW: u64 = 1_000_000;

fn config() -> Config {
    Config::local("/data".to_string(), "test-token", true)
}

fn ticket(config: &mut Config, slug: &str, ttl: u64) -> String {
    let token = format!("ticket{}", config.uploads.len());
    let held = UploadTicket { slug: slug.to_string(), expires_at: NOW + ttl };
    config.uploads.insert(token.clone(), held);
    token
}

fn kind(flags: &[&str]) -> UploadKind {
    let flags = flags.iter().map(|f| f.to_string()).collect();
    match upload_query(&flags) {
        Ok(query) => upload_kind(&query),
        Err(_) => panic!("a flag was refused"),
    }
}

fn status(step: &UploadStep) -> u16 {
    match step {
        UploadStep::Answer(reply) => reply.status,
        _ => 200,
    }
}

#[test]
fn uploads_need_a_live_ticket() {
    let mut config = config();
    let good = ticket(&mut config, "uploaded", 60_000);
    let expired = ticket(&mut config, "stale", 0);

    let body = b"<h1>via ticket</h1>";
    let step = store_upload(&mut config, NOW, &good, None, UploadKind::Page, body);
    let UploadStep::Write { path, done } = step else { panic!("nothing to write") };
    assert_eq!(path, "/data/uploaded.html");
    let reply = written(true, done);
    assert_eq!(reply.status, 200);
    assert!(reply.body.contains("/p/uploaded"));

    for bad in [expired.as_str(), "never-existed"] {
        let step = store_upload(&mut config, NOW, bad, None, UploadKind::Page, b"<h1>nope</h1>");
        assert_eq!(status(&step), 401, "ticket {bad} was accepted");
    }
}

#[test]
fn a_ticket_cannot_write_outside_its_own_slug() {
    let mut config = config();
    let token = ticket(&mut config, "mine", 60_000);
    for attempt in ["../yours", "..%2fyours", "../../etc/passwd"] {
        let step = store_upload(
            &mut config,
            NOW,
            &token,
            Some(attempt),
            UploadKind::Page,
            b"<h1>pwned</h1>",
        );
        assert_ne!(status(&step), 200, "{attempt} was accepted");
    }
}

#[test]
fn a_handler_is_validated_when_it_is_uploaded() {
    let mut config = config();
    let token = ticket(&mut config, "app", 60_000);
    let step = store_upload(&mut config, NOW, &token, None, kind(&["handler"]), b"not wasm");
    let UploadStep::Handler { app } = step else { panic!("not taken for a handler") };

    let UploadStep::Answer(bad) = handler_checked(&config, &app, Err("no".to_string())) else {
        panic!("something would be written")
    };
    assert_eq!(bad.status, 400);
    assert!(bad.body.contains("not a valid handler"), "{}", bad.body);

    let UploadStep::Write { path, done } = handler_checked(&config, &app, Ok(())) else {
        panic!("nothing to write")
    };
    assert_eq!(path, "/data/app/handler.wasm");
    assert_eq!(written(true, done).status, 200);
}

#[test]
fn a_flag_says_what_is_uploaded_and_an_unknown_one_is_refused() {
    assert!(kind(&[]) == UploadKind::Page);
    assert!(kind(&["icon"]) == UploadKind::Icon);
    assert!(kind(&["bundle"]) == UploadKind::Bundle { spa: false });
    assert!(kind(&["bundle", "spa"]) == UploadKind::Bundle { spa: true });
    assert!(kind(&["source"]) == UploadKind::Source);
    assert!(kind(&["manifest"]) == UploadKind::Manifest);
    assert!(kind(&["migrations"]) == UploadKind::Migrations);
    let refused = upload_query(&vec!["bundel".to_string()]).err().unwrap();
    assert_eq!((refused.status, refused.body.as_str()), (400, "unknown upload flag: bundel\n"));
    // One that is given twice is refused too, and the first fault is the one told.
    let flags = |names: &[&str]| names.iter().map(|n| n.to_string()).collect::<Vec<_>>();
    let twice = upload_query(&flags(&["spa", "bundle", "spa", "bundel"])).err().unwrap();
    assert_eq!(twice.status, 400);
    assert_eq!(twice.body, "Failed to deserialize query string: duplicate field `spa`");
    let first = upload_query(&flags(&["spa", "bundel", "spa"])).err().unwrap();
    assert_eq!(first.body, "unknown upload flag: bundel\n");
}

#[test]
fn each_kind_of_upload_has_its_own_place() {
    let mut config = config();
    let token = ticket(&mut config, "app/page", 60_000);
    let mut put = |kind: UploadKind, body: &[u8]| {
        store_upload(&mut config, NOW, &token, None, kind, body)
    };
    let path = |step: UploadStep| match step {
        UploadStep::Write { path, .. } => path,
        _ => panic!("nothing to write"),
    };
    assert_eq!(path(put(UploadKind::Icon, b"x")), "/data/app/page.icon");
    assert_eq!(path(put(UploadKind::Source, b"x")), "/data/app.source");
    match put(UploadKind::Bundle { spa: true }, b"x") {
        UploadStep::Bundle { slug, dest, spa } => {
            assert_eq!((slug.as_str(), dest.as_str(), spa), ("app/page", "/data/app/page", true));
        }
        _ => panic!("not a bundle"),
    }
    match put(UploadKind::Manifest, b"spa = true") {
        UploadStep::Manifest { app, text } => {
            assert_eq!((app.as_str(), text.as_str()), ("app", "spa = true"));
        }
        _ => panic!("not a manifest"),
    }
    assert_eq!(status(&put(UploadKind::Page, b"  ")), 400);
    assert_eq!(status(&put(UploadKind::Page, b"\xff\xfe")), 400);
    assert_eq!(status(&put(UploadKind::Page, b"")), 400);
    assert_eq!(status(&put(UploadKind::Icon, &vec![0u8; MAX_ICON_BYTES + 1])), 413);
}

#[test]
fn a_ticket_ends_when_its_time_is_over() {
    let mut config = config();
    let token = ticket(&mut config, "mine", 10);
    assert_eq!(ticket_slug(&mut config.uploads, NOW + 9, &token).as_deref(), Some("mine"));
    assert_eq!(ticket_slug(&mut config.uploads, NOW + 10, &token), None);
    // It is gone, not merely refused.
    assert_eq!(config.uploads.len(), 0);
    assert_eq!(upload_url(&config, "abc"), "http://localhost:8080/upload/abc");
}

#[test]
fn what_was_uploaded_can_be_read_back() {
    let mut config = config();
    let token = ticket(&mut config, "app/page", 60_000);
    match download(&mut config, NOW, &token, false) {
        DownloadStep::Page { direct, index } => {
            assert_eq!(direct, "/data/app/page.html");
            assert_eq!(index, "/data/app/page/index.html");
        }
        _ => panic!("no page"),
    }
    match download(&mut config, NOW, &token, true) {
        DownloadStep::Source { app, path } => {
            assert_eq!((app.as_str(), path.as_str()), ("app", "/data/app.source"));
        }
        _ => panic!("no source"),
    }
    assert!(matches!(
        download(&mut config, NOW, "never-existed", true),
        DownloadStep::Answer(reply) if reply.status == 401
    ));
    assert_eq!(page_read(None).status, 404);
    assert_eq!(page_read(Some("<p>".into())).body, "<p>");
    assert_eq!(source_read("app", false).status, 404);
    assert!(source_read("app", true).headers.contains(&(
        "content-disposition".to_string(),
        "attachment; filename=\"app-source.tar.gz\"".to_string()
    )));
}

#[test]
fn an_upload_says_what_came_of_it() {
    let config = config();
    let unpacked = Unpacked { files: vec!["a.css".to_string()], skipped: vec!["dotfiles"] };
    let reply = bundle_unpacked(&config, "app", Unpacking::Done(unpacked));
    assert_eq!(
        reply.body,
        "unpacked 1 files to /p/app\nskipped dotfiles\n\
         warning: no index.html at the bundle root, so the app root will 404\n"
    );
    assert_eq!(bundle_unpacked(&config, "app", Unpacking::Refused("no".into())).status, 400);
    assert_eq!(bundle_unpacked(&config, "app", Unpacking::Broken).status, 500);
    assert_eq!(
        migrated("app", 3, Migrated::Done { version: 3, ran: 2 }).body,
        "app: 3 migration(s) stored, 2 applied, now at version 3\n"
    );
    assert_eq!(migrated("app", 3, Migrated::Refused("no".into())).status, 400);
    assert_eq!(migrated("app", 3, Migrated::Broken).status, 500);
    assert_eq!(manifest_applied("app", Ok(vec![])).body, "app already matches its manifest\n");
    assert_eq!(
        manifest_applied("app", Ok(vec!["spa".into(), "gate".into()])).body,
        "app: applied spa, gate\n"
    );
    assert_eq!(manifest_applied("app", Err("no".into())).status, 400);
    assert_eq!(migrations_read(&Err("not a tarball".into())).unwrap().status, 400);
    assert!(migrations_read(&Ok(2)).is_none());
    assert_eq!(written(false, page_read(None)).status, 500);
    assert!(mark_spa(PageMeta::default()).spa);
}

fn there(kinds: &[&str]) -> Vec<bool> {
    (0..SIDECARS).map(|i| kinds.contains(&sidecar_name(i))).collect()
}

#[test]
fn a_removed_app_leaves_the_site_but_not_the_disk() {
    let moves = remove(&config(), "app", 1_000, true, &there(&["meta", "notes"]), &vec![]).ok().unwrap();
    assert_eq!(moves.len(), 3);
    assert_eq!(moves[0].from, "/data/app");
    // Still there for whoever regrets it.
    assert_eq!(moves[0].to, "/data/.trash/1000-app/app");
    assert!(moves.iter().any(|m| m.from == "/data/app.meta"));
    assert!(moves
        .iter()
        .any(|m| m.from == "/data/app.notes" && m.to == "/data/.trash/1000-app/slug.notes"));
}

#[test]
fn removing_a_page_leaves_an_app_of_the_same_name_alone() {
    // Exactly the mess a probe published as a page makes: a page and an app
    // sharing a slug, where only the page should go.
    let moved = remove_page_only(&config(), "releases", 2_000, true, &vec![]).ok().unwrap();
    assert_eq!(moved.from, "/data/releases.html");
    assert_eq!(moved.to, "/data/.trash/2000-releases/slug.html");
    assert_eq!(
        remove_page_only(&config(), "releases", 2_000, false, &vec![]).err().unwrap(),
        "no single page at 'releases'"
    );
}

#[test]
fn removing_twice_does_not_overwrite_the_first_removal() {
    let first = remove(&config(), "page", 10, false, &there(&["html"]), &vec![]).ok().unwrap();
    let second = remove(&config(), "page", 20, false, &there(&["html"]), &vec![]).ok().unwrap();
    assert_eq!(first[0].to, "/data/.trash/10-page/slug.html");
    assert_eq!(second[0].to, "/data/.trash/20-page/slug.html");
}

#[test]
fn no_two_removals_share_a_place() {
    let place = |slug: &str, taken: &[&str]| {
        let taken = taken.iter().map(|name| name.to_string()).collect();
        let mut moves = remove(&config(), slug, 10, false, &there(&["html"]), &taken).ok().unwrap();
        moves.remove(0).to
    };
    assert_eq!(place("a-b", &[]), "/data/.trash/10-a-b/slug.html");
    assert_eq!(place("a/b", &[]), "/data/.trash/10-a-b/slug.html");
    // Not even slugs that share a name, or the same slug in the same second.
    assert_eq!(place("a/b", &["10-a-b", "10-a.b"]), "/data/.trash/10-a-b~1/slug.html");
    assert_eq!(
        place("a/b", &["10-a-b~1", "10-a-b", "10-a-b~3", "10-a-b"]),
        "/data/.trash/10-a-b~2/slug.html"
    );
    let page = remove_page_only(&config(), "a", 10, true, &vec!["10-a".to_string()]);
    assert_eq!(page.ok().unwrap().to, "/data/.trash/10-a~1/slug.html");
}

#[test]
fn nothing_published_is_said_rather_than_silently_succeeding() {
    assert_eq!(
        remove(&config(), "never-existed", 1, false, &there(&[]), &vec![]).err().unwrap(),
        "nothing published at 'never-existed'"
    );
    assert!(remove(&config(), "../etc", 1, true, &there(&["html"]), &vec![]).is_err());
}

#[test]
fn a_query_is_read_for_its_flags() {
    assert_eq!(query_flags("bundle&spa"), ["bundle", "spa"]);
    assert_eq!(query_flags("bundle=1&&spa="), ["bundle", "spa"]);
    assert!(query_flags("").is_empty());
    assert_eq!(query_flags("=x"), [""]);
    // Names are decoded before they are compared.
    assert_eq!(query_flags("%62undle=%31&sp%61"), ["bundle", "spa"]);
    assert_eq!(query_flags("a+b%26c=+"), ["a b&c"]);
}
