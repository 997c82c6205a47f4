//! The command line: what it asks of a server, and what it prints.
use toolsite::cli::deploy::{
    not_packed, page_to_check, target, uploaded, uploads, verify, Deploy, Outcome, Packed, Parts,
    Said, Upload,
};
use toolsite::cli::init::init;
use toolsite::cli::plan::{plan, server, Command, Defaults, Show};
use toolsite::cli::print::{print_pages, print_rows, render_cell, PageLine, Rows, Value};
use toolsite::cli::project::{
    built_handler, choose_slug, find_upload_url, handler_step, is_kept, is_migration,
    read_manifest, read_project, read_slug, upload_url_in, web_root, Found, HandlerStep, WebRoots,
};
use toolsite::cli::react;
use toolsite::cli::scalar::{json_scalar, parse_integer, scalar_text, Scalar};
use toolsite::cli::wire::{
    call_body, candidates, endpoint, parse_sse, Mcp, Opened, Payload, INITIALIZE, INITIALIZED,
};
use toolsite::platform::scaffold::Templates;

#[test]
fn the_upload_url_is_found_in_the_servers_prose() {
    let reply = "Upload with (expires in 15 min, reusable until then):\n\n  \
                 curl -fT <file.html> https://host.example/upload/abc123\n\n  \
                 tar -czf - -C dist . | curl -f -T - 'https://host.example/upload/abc123?bundle'";
    assert_eq!(find_upload_url(reply).unwrap(), "https://host.example/upload/abc123");
    assert!(upload_url_in("nothing here").is_err());
}

/// A raw parameter as it is sent: the number it stands for is read as JSON
/// numbers are.
fn scalar(raw: &str) -> Scalar {
    let number = raw.parse::<f64>().ok().and_then(serde_json::Number::from_f64);
    json_scalar(raw, number.map(|n| n.to_string()))
}

#[test]
fn parameters_keep_their_type() {
    assert_eq!(scalar("42"), Scalar::Integer(42));
    assert_eq!(scalar("1.5"), Scalar::Real("1.5".into()));
    assert_eq!(scalar("nan"), Scalar::Text("nan".into()));
    assert_eq!(scalar("inf"), Scalar::Text("inf".into()));
    assert_eq!(scalar("true"), Scalar::Flag(true));
    assert_eq!(scalar("hello"), Scalar::Text("hello".into()));
    // A quoted-looking number is still text if it cannot parse.
    assert_eq!(scalar("42abc"), Scalar::Text("42abc".into()));
    assert_eq!(scalar("null"), Scalar::Null);
}

#[test]
fn integers_are_read_to_their_limits() {
    assert_eq!(parse_integer("9223372036854775807"), Some(i64::MAX));
    assert_eq!(parse_integer("-9223372036854775808"), Some(i64::MIN));
    assert_eq!(parse_integer("9223372036854775808"), None);
    assert_eq!(parse_integer("+7"), Some(7));
    for text in ["", "-", "+", " 1", "1_0", "--1"] {
        assert_eq!(parse_integer(text), None, "{text:?}");
    }
    assert_eq!(scalar_text(&Scalar::Integer(-12)), "-12");
    assert_eq!(scalar_text(&Scalar::Text("a\"b\n".into())), "\"a\\\"b\\n\"");
}

fn ok_in(reply: &str) -> bool {
    let value: serde_json::Value = serde_json::from_str(reply).unwrap();
    value["result"]["ok"] == serde_json::Value::Bool(true)
}

#[test]
fn an_sse_framed_reply_is_read() {
    let body = "data: \nid: 0\n\ndata: {\"jsonrpc\":\"2.0\",\"result\":{\"ok\":true}}\n";
    assert!(ok_in(&parse_sse(body).unwrap()));
}

#[test]
fn a_plain_json_reply_is_read() {
    let body = r#"{"jsonrpc":"2.0","result":{"ok":true}}"#;
    assert!(ok_in(&parse_sse(body).unwrap()));
    assert_eq!(parse_sse("not json"), None);
    assert_eq!(candidates("data: 1\nx\n").first().map(String::as_str), Some("1"));
}

#[test]
fn the_base_path_is_set_before_anyone_has_to_learn_why() {
    let files = react::write("dash");
    let config = &files.iter().find(|(name, _)| name == "vite.config.ts").unwrap().1;
    assert!(
        config.contains("base: '/p/dash/'"),
        "a default base publishes a blank page: {config}"
    );
}

#[test]
fn the_stylesheet_is_one_import() {
    let files = react::write("dash");
    let css = &files.iter().find(|(name, _)| name == "src/index.css").unwrap().1;
    assert_eq!(css, "@import \"tailwindcss\";\n");
}

#[test]
fn nothing_reaches_for_the_domain_root() {
    // An absolute URL in a fetch or an import escapes the app's subpath and
    // lands on the site index, which answers 200 with the wrong body.
    let files = react::write("dash");
    let app = &files.iter().find(|(name, _)| name == "src/App.tsx").unwrap().1;
    assert!(app.contains("fetch('api/hello')"), "{app}");
    assert!(!app.contains("fetch('/api"), "an absolute path leaves the app: {app}");
}

fn opened(status: u16, session: Option<&str>) -> Opened {
    Opened { status, reason: format!("{status} reason"), session: session.map(str::to_string) }
}

fn said(result: Result<Mcp, String>) -> String {
    result.err().unwrap()
}

#[test]
fn a_session_is_opened_and_a_tool_called() {
    assert_eq!(endpoint("https://pages.example//"), "https://pages.example/mcp");
    let mcp = Mcp::connect("https://pages.example/", "t", opened(200, Some("s"))).ok().unwrap();
    assert_eq!((mcp.url.as_str(), mcp.session.as_str()), ("https://pages.example/mcp", "s"));
    assert!(said(Mcp::connect("b", "t", opened(401, None))).contains("TOOLSITE_TOKEN"));
    assert_eq!(said(Mcp::connect("b", "t", opened(500, None))), "b/mcp answered 500 reason");
    assert!(said(Mcp::connect("b", "t", opened(204, None))).contains("session id"));

    let payload = |error: Option<&str>, result: bool, text: Option<&str>, is_error: bool| {
        Some(Payload {
            error: error.map(str::to_string),
            result,
            text: text.map(str::to_string),
            is_error,
        })
    };
    assert_eq!(mcp.call("t", "", payload(None, true, Some("hi"), false)), Ok("hi".into()));
    assert_eq!(mcp.call("t", "", payload(None, true, None, false)), Ok("".into()));
    assert_eq!(mcp.call("t", "", payload(None, true, Some("no"), true)), Err("no".into()));
    assert_eq!(
        mcp.call("t", "", payload(Some("{}"), false, None, false)),
        Err("t failed: {}".into())
    );
    assert!(mcp.call("t", "body", payload(None, false, None, false)).is_err());
    assert!(mcp.call("t", "body", None).unwrap_err().ends_with("body"));

    for text in [INITIALIZE, INITIALIZED, &call_body("run_sql", "{\"app\":\"a\"}")] {
        assert!(serde_json::from_str::<serde_json::Value>(text).is_ok(), "{text}");
    }
}

fn call(command: Command) -> Result<(String, String), String> {
    plan(&command, &Defaults { password: None, secret: None })
        .map(|call| (call.tool, call.arguments))
}

#[test]
fn a_command_asks_one_tool() {
    let call_of = |command: Command| call(command).unwrap();
    assert_eq!(
        call_of(Command::Sql {
            app: "app".into(),
            sql: "select ?".into(),
            params: vec![Scalar::Integer(1), Scalar::Text("x".into())],
        }),
        (
            "run_sql".to_string(),
            "{\"app\":\"app\",\"params\":[1,\"x\"],\"sql\":\"select ?\"}".to_string()
        )
    );
    assert_eq!(
        call_of(Command::Gate { app: "app".into(), gate: "granted".into(), path: None }),
        (
            "set_visibility".to_string(),
            "{\"gate\":\"granted\",\"slug\":\"app\"}".to_string()
        )
    );
    assert_eq!(
        call_of(Command::UserDisable { email: "a@b.c".into() }).1,
        "{\"active\":false,\"email\":\"a@b.c\"}"
    );
    assert_eq!(
        call_of(Command::Grant { app: "app".into(), email: "a@b.c".into(), role: None }).1,
        "{\"allow\":true,\"app\":\"app\",\"email\":\"a@b.c\"}"
    );
    let listed = plan(&Command::List { all: true }, &Defaults { password: None, secret: None });
    assert_eq!(listed.unwrap().show, Show::Pages);
}

#[test]
fn what_is_asked_is_json_whatever_it_holds() {
    let odd: String = (0u32..0x82).filter_map(char::from_u32).chain("é📋\u{2028}".chars()).collect();
    let asked = call(Command::UserEnable { email: odd.clone() }).unwrap().1;
    let written = serde_json::to_string(&odd).unwrap();
    assert_eq!(asked, format!("{{\"active\":true,\"email\":{written}}}"));
}

#[test]
fn secrets_may_come_from_the_environment() {
    let add = || Command::UserAdd { email: "a@b.c".into(), password: None, admin: false };
    // Without one the server answers with a link to choose it at.
    assert_eq!(call(add()).unwrap().1, "{\"admin\":false,\"email\":\"a@b.c\"}");
    let defaults = Defaults { password: Some("pw".into()), secret: Some("sv".into()) };
    assert!(plan(&add(), &defaults).unwrap().arguments.contains("\"password\":\"pw\""));
    let secret = Command::Secret {
        app: "app".into(),
        name: Some("KEY".into()),
        value: None,
        remove: false,
        link: false,
    };
    assert!(plan(&secret, &defaults).unwrap().arguments.contains("\"value\":\"sv\""));
    assert!(call(secret).is_err());
}

#[test]
fn a_job_needs_both_its_schedule_and_its_path() {
    let job = |schedule: Option<&str>, now: bool, remove: bool| Command::Job {
        app: "app".into(),
        name: Some("n".into()),
        schedule: schedule.map(str::to_string),
        path: None,
        now,
        remove,
    };
    assert_eq!(call(job(Some("x"), false, false)), Err("pass --schedule and --path".into()));
    assert!(call(job(None, true, false)).unwrap().1.contains("\"run_now\":true"));
    assert_eq!(call(job(None, false, true)).unwrap().1, "{\"app\":\"app\",\"name\":\"n\"}");
}

#[test]
fn the_server_is_named_by_option_or_environment() {
    let named = |text: &str| Some(text.to_string());
    let found = server(None, None, named("u"), None, named("m")).ok().unwrap();
    assert_eq!((found.url.as_str(), found.token.as_str()), ("u", "m"));
    let found = server(named("a"), named("b"), named("u"), named("t"), None).ok().unwrap();
    assert_eq!((found.url.as_str(), found.token.as_str()), ("a", "b"));
    assert!(server(None, named("b"), None, None, None).is_err());
    assert!(server(named("a"), None, None, None, None).is_err());
}

fn roots(dist: bool, here: bool) -> WebRoots {
    WebRoots { dist, build: false, public: false, here }
}

#[test]
fn a_project_is_read_from_its_directory() {
    let text = "slug = \"board\"\nspa = true\n";
    assert_eq!(read_manifest(text), (Some("board".to_string()), true));
    assert_eq!(read_slug(text).as_deref(), Some("board"));
    assert_eq!(read_slug("spa = true"), None);
    let found = || Found {
        manifest: Some(text.to_string()),
        directory: Some("dir".to_string()),
        roots: roots(true, true),
    };
    let project = read_project("/w", None, false, found()).unwrap();
    assert_eq!((project.slug.as_str(), project.spa), ("board", true));
    assert_eq!(project.web_root, "/w/dist");
    assert_eq!(read_project("/w", Some("other".into()), false, found()).unwrap().slug, "other");
    assert_eq!(web_root("/w", &roots(false, true)), Ok("/w".to_string()));
    assert!(web_root("/w", &roots(false, false)).unwrap_err().contains("index.html"));
    assert_eq!(choose_slug(None, None, Some("dir".into())), Ok("dir".into()));
    assert!(choose_slug(None, None, None).is_err());
}

#[test]
fn a_handler_is_used_built_or_absent() {
    assert_eq!(handler_step("/w", true, true), HandlerStep::Use("/w/handler.wasm".into()));
    assert_eq!(
        handler_step("/w", false, true),
        HandlerStep::Build("/w/handler/Cargo.toml".into())
    );
    assert_eq!(handler_step("/w", false, false), HandlerStep::Nothing);
    assert_eq!(
        built_handler(&vec!["a.d".into(), "target/h.wasm".into()]),
        Ok("target/h.wasm".into())
    );
    assert!(built_handler(&vec!["a.d".into()]).is_err());
    assert!(is_migration("001.sql") && !is_migration("notes.md"));
    assert!(is_kept("src") && !is_kept("node_modules") && !is_kept(".git"));
}

#[test]
fn a_deploy_goes_up_in_order() {
    let all = Parts { migrations: true, manifest: true, handler: true, keep_source: true };
    assert_eq!(
        uploads(&all),
        [Upload::Migrations, Upload::Manifest, Upload::Bundle, Upload::Handler, Upload::Source]
    );
    let none = Parts { migrations: false, manifest: false, handler: false, keep_source: false };
    assert_eq!(uploads(&none), [Upload::Bundle]);
    assert_eq!(target("u", Upload::Bundle, true), "u?bundle&spa");
    assert_eq!(target("u", Upload::Source, true), "u?source");
    assert_eq!(
        uploaded(Upload::Bundle, true, "200 OK", "done\n"),
        Outcome::Says("done\n".into())
    );
    assert_eq!(
        uploaded(Upload::Manifest, false, "400 Bad Request", " no \n"),
        Outcome::Fails("toolsite.toml was rejected (400 Bad Request): no".into())
    );
    assert!(matches!(uploaded(Upload::Source, false, "500", ""), Outcome::Warns(_)));
    assert!(matches!(not_packed(Upload::Source, "no"), Outcome::Warns(_)));
    assert!(matches!(not_packed(Upload::Migrations, "no"), Outcome::Fails(_)));
}

fn answer(ok: bool, body: &str) -> Result<Said, String> {
    let status = if ok { "200 OK" } else { "400 Bad Request" };
    Ok(Said { ok, status: status.to_string(), body: body.to_string() })
}

#[test]
fn a_deploy_goes_on_until_something_fails() {
    let parts = Parts { migrations: true, manifest: true, handler: false, keep_source: true };
    let mut deploy = Deploy::begin("https://h/upload/t".to_string(), true, &parts);

    // No .sql files: nothing is sent for them.
    assert_eq!(deploy.next(), Some(Upload::Migrations));
    assert!(matches!(deploy.packed(Ok(vec![])), Packed::Skipped));

    assert_eq!(deploy.next(), Some(Upload::Manifest));
    let Packed::Put { url, body } = deploy.packed(Ok(b"slug".to_vec())) else { panic!() };
    assert_eq!(url, "https://h/upload/t?manifest");
    assert_eq!(body, b"slug");
    assert_eq!(deploy.next(), Some(Upload::Manifest), "not answered yet");
    assert_eq!(deploy.answered(answer(true, "applied\n")), Outcome::Says("applied\n".into()));

    assert_eq!(deploy.next(), Some(Upload::Bundle));
    let Packed::Put { url, .. } = deploy.packed(Ok(vec![1])) else { panic!() };
    assert_eq!(url, "https://h/upload/t?bundle&spa");
    assert_eq!(
        deploy.answered(answer(false, "no")),
        Outcome::Fails("upload failed (400 Bad Request): no".into())
    );
    // The source would have come next.
    assert_eq!(deploy.next(), None);
    assert_eq!(deploy.done, [Upload::Migrations, Upload::Manifest]);
}

#[test]
fn a_deploy_survives_a_project_that_cannot_be_kept() {
    let parts = Parts { migrations: false, manifest: false, handler: false, keep_source: true };
    let mut deploy = Deploy::begin("u".to_string(), false, &parts);
    deploy.packed(Ok(vec![1]));
    deploy.answered(answer(true, ""));
    assert_eq!(deploy.next(), Some(Upload::Source));
    let Packed::Came(Outcome::Warns(warning)) = deploy.packed(Err("disk".to_string())) else {
        panic!()
    };
    assert_eq!(warning, "warning: could not package the project: disk");
    assert_eq!(deploy.next(), None);
    assert!(!deploy.failed);

    let mut lost = Deploy::begin("u".to_string(), false, &parts);
    lost.packed(Ok(vec![1]));
    assert_eq!(lost.answered(Err("no route".to_string())), Outcome::Fails("no route".into()));
    assert!(lost.failed);
}

#[test]
fn a_page_that_reaches_for_the_root_is_warned_of() {
    let page = page_to_check("https://pages.example/", "app");
    assert_eq!(page, "https://pages.example/p/app/");
    assert_eq!(verify(&page, "app", true, "200 OK", "<p>"), Ok(vec![]));
    let warned = verify(&page, "app", true, "200 OK", "<script src=\"/assets/a.js\">").unwrap();
    assert!(warned.iter().any(|line| line.contains("base: '/p/app/'")));
    assert_eq!(
        verify(&page, "app", false, "404 Not Found", ""),
        Err("published, but https://pages.example/p/app/ answered 404 Not Found".into())
    );
}

#[test]
fn pages_and_rows_are_printed() {
    let page = PageLine {
        slug: Some("app".into()),
        title: Some("My App".into()),
        modified: Some("1m ago".into()),
        hidden: Some(true),
        listed: Some(false),
    };
    assert_eq!(
        print_pages(&vec![page]),
        [format!("{:<28} {:<10} My App  [hidden, unlisted]", "app", "1m ago")]
    );
    let rows = Rows {
        columns: vec!["a".into(), "b".into()],
        rows: vec![vec![Value::Null, Value::Text("x".into())]],
        truncated: true,
        rows_affected: 0,
    };
    assert_eq!(print_rows(&rows), ["a\tb", "NULL\tx", "… truncated at the server's row cap"]);
    let none = Rows { columns: vec![], rows: vec![], truncated: false, rows_affected: 3 };
    assert_eq!(print_rows(&none), ["3 row(s) affected"]);
    assert_eq!(render_cell(&Value::Other("1.5".into())), "1.5");
}

#[test]
fn a_new_project_has_what_was_asked_for() {
    let templates = Templates {
        cargo: "name = \"NAME\"".into(),
        lib: "lib".into(),
        migration: "m".into(),
        wit: "w".into(),
    };
    let names = |handler: bool, react: bool| -> Vec<String> {
        let made = init("app", false, false, handler, react, &templates).ok().unwrap();
        made.files.into_iter().map(|(name, _)| name).collect()
    };
    assert!(names(false, false).contains(&"toolsite.toml".to_string()));
    assert!(names(true, false).iter().any(|name| name == "handler/Cargo.toml"));
    assert!(names(false, true).iter().any(|name| name == "vite.config.ts"));
    assert_eq!(
        init("app", true, false, false, false, &templates).err().unwrap(),
        "app already exists"
    );
}
