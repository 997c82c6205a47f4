//! A whole site in memory: files in a map, decisions from the library.
use std::collections::BTreeMap;
use toolsite::accounts::users::{
    grant, has_grant, invite, log_in, reinvite, set_active, sign_up, sign_up_as, Accounts, User,
};
use toolsite::accounts::web::{
    current_site_user, handoff, header_value, login_form, login_submit, logout, me, setup_form,
    setup_submit, Credentials, HandoffParams, NextPage,
};
use toolsite::config::Config;
use toolsite::content::serve::{
    content_type_for, enclosing, guest_request, handler_reply, icon_slug, index, places,
    prefixes, route_page, serve_icon, serve_page, sniff_image_type, spa_fallback, Candidate, Enclosing,
    Found, GuestReply, PageCard, Relayed, Serve, MAX_REQUEST_BYTES,
};
use toolsite::content::store::{
    collect_slugs, meta_path, page_icon, page_title, Entry, PageMeta, PathRule,
};
use toolsite::platform::admin::{
    add_account, change_access, change_active, change_gate, list_apps, page, AccessChange,
    ActiveChange, GateChange, NewAccount,
};
use toolsite::reply::Reply;

const NOW: u64 = 1_000_000;
const PASSWORD: &str = "correct horse battery";
const SECRET: &str = "site-secret";

struct Site {
    config: Config,
    accounts: Accounts,
    files: BTreeMap<String, String>,
    metas: BTreeMap<String, PageMeta>,
}

/// What a request came to.
struct Came {
    status: u16,
    headers: Vec<(String, String)>,
    body: String,
    /// The path that a handler was handed, where one answers.
    handler: Option<String>,
    visitor: Option<User>,
}

fn came(reply: Reply, visitor: Option<User>) -> Came {
    Came { status: reply.status, headers: reply.headers, body: reply.body, handler: None, visitor }
}

impl Came {
    fn header(&self, name: &str) -> &str {
        let found = self.headers.iter().find(|(n, _)| n == name);
        &found.unwrap_or_else(|| panic!("no {name}")).1
    }

    fn has(&self, name: &str) -> bool {
        self.headers.iter().any(|(n, _)| n == name)
    }
}

fn found(reply: &Reply, name: &str) -> String {
    reply.headers.iter().find(|(n, _)| n == name).unwrap().1.clone()
}

fn cookies(value: String) -> Vec<(String, String)> {
    vec![("cookie".to_string(), value)]
}

fn site_cookie(token: &str) -> Vec<(String, String)> {
    cookies(format!("ts_session={token}"))
}

fn app_cookie(app: &str, token: &str) -> Vec<(String, String)> {
    cookies(format!("ts_app_{app}={token}"))
}

fn copy(meta: &PageMeta) -> PageMeta {
    PageMeta {
        listed: meta.listed,
        hidden: meta.hidden,
        spa: meta.spa,
        gate: meta.gate.clone(),
        rules: meta
            .rules
            .iter()
            .map(|r| PathRule { prefix: r.prefix.clone(), gate: r.gate.clone() })
            .collect(),
        allow_http: meta.allow_http.clone(),
    }
}

impl Site {
    fn new() -> Site {
        Site {
            config: Config::local("/data".to_string(), "test-token", true),
            accounts: Accounts::new(),
            files: BTreeMap::new(),
            metas: BTreeMap::new(),
        }
    }

    fn write(&mut self, path: &str, text: &str) {
        self.files.insert(format!("/data/{path}"), text.to_string());
    }

    fn write_page(&mut self, slug: &str, html: &str) {
        self.write(&format!("{slug}.html"), html);
    }

    fn publish_handler(&mut self, app: &str) {
        self.write(&format!("{app}/handler.wasm"), "a component");
    }

    fn is(&self, path: &str) -> bool {
        self.files.contains_key(&format!("/data/{path}"))
    }

    fn where_meta_is(&self, slug: &str) -> String {
        let there = |ending: &str| self.metas.contains_key(&format!("/data/{slug}{ending}"));
        let (direct, inner) = (there(".meta"), there("/index.meta"));
        meta_path(&self.config, slug, direct, inner, self.is(&format!("{slug}.html")))
    }

    fn read_meta(&self, slug: &str) -> PageMeta {
        self.metas.get(&self.where_meta_is(slug)).map(copy).unwrap_or_default()
    }

    fn write_meta(&mut self, slug: &str, meta: PageMeta) {
        let path = self.where_meta_is(slug);
        self.metas.insert(path, meta);
    }

    fn gate(&mut self, app: &str, gate: &str) {
        let path = format!("/data/{app}/index.meta");
        self.metas.insert(path, PageMeta { gate: gate.to_string(), ..PageMeta::default() });
    }

    fn get(&mut self, path: &str, headers: Vec<(String, String)>) -> Came {
        let Some(route) = route_page(path) else {
            return came(Reply::says(404, "not found"), None);
        };
        let hidden =
            prefixes(&route.slug).iter().map(|slug| self.read_meta(slug).hidden).collect();
        let meta = self.read_meta(&route.app);
        let slug = &route.slug;
        let apps = enclosing(slug)
            .into_iter()
            .map(|app| Enclosing {
                spa: self.read_meta(&app).spa,
                index: self.is(&format!("{app}/index.html")),
                app,
            })
            .collect();
        let places = places(&self.config, &route);
        let there = |path: &String| self.files.contains_key(path);
        let found = Found {
            asset: there(&places.asset),
            direct: there(&places.direct),
            index: there(&places.index),
            handler: places.handler.as_ref().is_some_and(there),
            spa: spa_fallback(&apps),
        };
        let (visitor, serve) = serve_page(
            &self.config,
            &mut self.accounts,
            &meta,
            &hidden,
            &route,
            path,
            &headers,
            &found,
            NOW,
        );
        let ok = |content_type: &str, body: &str| Came {
            status: 200,
            headers: vec![("content-type".to_string(), content_type.to_string())],
            body: body.to_string(),
            handler: None,
            visitor: visitor.clone(),
        };
        match serve {
            Serve::Handler { .. } => {
                let request = guest_request(
                    &route.app,
                    "GET".to_string(),
                    path,
                    String::new(),
                    headers,
                    Vec::new(),
                )
                .ok()
                .unwrap();
                Came { handler: Some(request.path), ..ok("", "") }
            }
            Serve::Asset { path, content_type } => ok(content_type, &self.files[&path]),
            Serve::Page { path } => ok("text/html", &self.files[&path]),
            Serve::Answer(reply) => came(reply, visitor),
        }
    }

    fn entries(&self) -> Vec<Entry> {
        fn below(files: &BTreeMap<String, String>, dir: &str) -> Vec<Entry> {
            let mut entries = Vec::new();
            let mut dirs: Vec<String> = Vec::new();
            for path in files.keys() {
                let Some(rest) = path.strip_prefix(dir) else { continue };
                match rest.split_once('/') {
                    Some((name, _)) if !dirs.iter().any(|d| d == name) => {
                        dirs.push(name.to_string());
                        entries.push(Entry::Dir {
                            name: name.to_string(),
                            entries: below(files, &format!("{dir}{name}/")),
                        });
                    }
                    Some(_) => {}
                    None => entries.push(Entry::File { name: rest.to_string() }),
                }
            }
            entries
        }
        below(&self.files, "/data/")
    }

    fn index(&mut self, headers: Vec<(String, String)>) -> Reply {
        let visitor =
            current_site_user(&mut self.accounts, header_value(&headers, "cookie"), NOW);
        let mut pages = Vec::new();
        for slug in collect_slugs(&self.entries(), "") {
            let app = slug.split('/').next().unwrap().to_string();
            let (meta, app_meta) = (self.read_meta(&slug), self.read_meta(&app));
            let html = self
                .files
                .get(&format!("/data/{slug}.html"))
                .or_else(|| self.files.get(&format!("/data/{slug}/index.html")))
                .unwrap();
            let icon = self.files.get(&format!("/data/{slug}.icon"));
            let card = PageCard {
                title: page_title(html.as_bytes()),
                icon: page_icon(&slug, icon.map(|i| i.as_bytes())),
                modified: Some(NOW - 60),
                slug,
            };
            pages.push(Candidate { card, meta, app_meta });
        }
        index(&self.accounts, pages, visitor.as_ref(), NOW)
    }

    fn account(&mut self, email: &str) {
        sign_up(&mut self.accounts, email, PASSWORD, NOW).unwrap();
    }

    fn admin_account(&mut self, email: &str) {
        sign_up_as(&mut self.accounts, email, PASSWORD, true, NOW).unwrap();
    }

    fn sign_in(&mut self, email: &str) -> String {
        log_in(&mut self.accounts, email, PASSWORD, NOW).unwrap().1
    }

    /// Walks a signed-in visitor through the handoff and returns the app
    /// session token the browser would have stored, plus the Set-Cookie it came
    /// in.
    fn hand_off(&mut self, site_token: &str, app: &str) -> (String, String) {
        let params =
            HandoffParams { app: app.to_string(), next: Some(format!("/p/{app}/")) };
        let reply = handoff(&mut self.accounts, &params, &site_cookie(site_token), NOW);
        assert_eq!(reply.status, 303, "handoff did not redirect");
        let cookie = found(&reply, "set-cookie");
        let token = cookie
            .split(';')
            .next()
            .unwrap()
            .trim_start_matches(&format!("ts_app_{app}="))
            .to_string();
        (token, cookie)
    }

    fn me(&mut self, token: &str) -> Reply {
        let user =
            current_site_user(&mut self.accounts, Some(&format!("ts_session={token}")), NOW);
        me(&user)
    }

    fn admin(&mut self, token: Option<&str>) -> Reply {
        let apps = list_apps(&collect_slugs(&self.entries(), ""))
            .into_iter()
            .map(|app| (app.clone(), self.read_meta(&app).gate))
            .collect();
        let cookie = token.map(|t| format!("ts_session={t}"));
        page(&mut self.accounts, cookie.as_deref(), &apps, SECRET, NOW)
    }
}

#[test]
fn pages_are_public_but_traversal_is_not_reachable() {
    let mut site = Site::new();
    site.write_page("hello", "<h1>hi</h1>");

    let page = site.get("/p/hello", vec![]);
    assert_eq!(page.status, 200);
    assert!(page.body.contains("<h1>hi</h1>"));

    for attempt in ["/p/../../etc/passwd", "/p/hello/../../../etc/passwd"] {
        assert_eq!(site.get(attempt, vec![]).status, 404, "{attempt} was not rejected");
    }
}

#[test]
fn an_app_root_redirects_so_relative_links_resolve() {
    let mut site = Site::new();
    site.write_page("app/index", "<h1>app</h1>");

    let bare = site.get("/p/app", vec![]);
    assert_eq!(bare.status, 308);
    assert_eq!(bare.header("location"), "/p/app/");

    let page = site.get("/p/app/", vec![]);
    assert_eq!(page.status, 200);
    assert!(page.body.contains("<h1>app</h1>"));
}

#[test]
fn hiding_a_page_takes_down_its_url_without_deleting_it() {
    let mut site = Site::new();
    site.write_page("secret", "<h1>classified</h1>");
    site.write_meta(
        "secret",
        PageMeta { listed: false, hidden: true, ..PageMeta::default() },
    );

    assert_eq!(site.get("/p/secret", vec![]).status, 404);
    // The file is untouched, which is what makes it reversible.
    assert!(site.is("secret.html"));
    assert!(!site.index(vec![]).body.contains("/p/secret"), "hidden page appeared on the index");
}

#[test]
fn unlisted_pages_still_serve() {
    let mut site = Site::new();
    site.write_page("quiet", "<h1>quiet</h1>");
    site.write_meta("quiet", PageMeta { listed: false, ..PageMeta::default() });

    assert_eq!(site.get("/p/quiet", vec![]).status, 200);
    // Match the link, not the word: the stylesheet has classes too.
    assert!(!site.index(vec![]).body.contains("/p/quiet"), "unlisted page appeared on the index");
}

#[test]
fn bundle_assets_are_served_with_a_real_content_type() {
    let mut site = Site::new();
    site.write("bundle/index.html", "<h1>app</h1>");
    site.write("bundle/assets/main-4f2a.js", "console.log(1)");
    site.write("bundle/assets/main-4f2a.css", "body{}");

    for (path, expected) in [
        ("/p/bundle/assets/main-4f2a.js", "text/javascript"),
        ("/p/bundle/assets/main-4f2a.css", "text/css"),
    ] {
        let asset = site.get(path, vec![]);
        assert_eq!(asset.status, 200, "{path}");
        let content_type = asset.header("content-type");
        assert!(content_type.starts_with(expected), "{path} served as {content_type}");
    }
}

#[test]
fn client_routes_only_fall_back_to_index_when_the_app_asked_for_it() {
    let mut site = Site::new();
    site.write("spa/index.html", "<h1>spa</h1>");
    site.write("static/index.html", "<h1>static</h1>");
    site.write_meta("spa", PageMeta { spa: true, ..PageMeta::default() });

    let deep = site.get("/p/spa/deep/route", vec![]);
    assert_eq!(deep.status, 200);
    assert!(deep.body.contains("<h1>spa</h1>"));

    assert_eq!(site.get("/p/static/deep/route", vec![]).status, 404);
}

#[test]
fn the_index_lists_an_app_once_at_its_root() {
    let mut site = Site::new();
    site.write_page("app/index", "<!doctype html><title>My App</title>");
    site.write_page("app/about", "<!doctype html><title>About</title>");
    site.write_page("loose", "<!doctype html><title>Loose Page</title>");

    let index = site.index(vec![]);
    assert_eq!(index.status, 200);
    assert_eq!(index.body.matches("/p/app\"").count(), 1);
    assert!(!index.body.contains("/p/app/about"), "inner page was listed");
    assert!(index.body.contains("My App"), "title was not picked up");
    assert!(index.body.contains("Loose Page"));
}

#[test]
fn api_requests_reach_the_apps_handler() {
    let mut site = Site::new();
    site.publish_handler("app");
    // The guest sees a path relative to its own app, not the mount point.
    assert_eq!(site.get("/p/app/api/echo", vec![]).handler.unwrap(), "/api/echo");
}

#[test]
fn api_requests_carry_method_and_body_through() {
    let request = guest_request(
        "app",
        "POST".to_string(),
        "/p/app/api/echo-param",
        "a=1".to_string(),
        vec![("accept".to_string(), "text/plain".to_string())],
        b"hello from the browser".to_vec(),
    )
    .ok()
    .unwrap();
    assert_eq!(request.method, "POST");
    assert_eq!(request.path, "/api/echo-param");
    assert_eq!(request.query, "a=1");
    assert_eq!(request.headers, [("accept".to_string(), "text/plain".to_string())]);
    assert_eq!(request.body, b"hello from the browser");
}

#[test]
fn a_guest_never_sees_a_forged_host_header() {
    let request = guest_request(
        "app",
        "GET".to_string(),
        "/p/app",
        String::new(),
        vec![
            ("X-Toolsite-Job".to_string(), "rollup".to_string()),
            ("x-toolsite-user".to_string(), "root".to_string()),
            ("x-other".to_string(), "kept".to_string()),
        ],
        Vec::new(),
    )
    .ok()
    .unwrap();
    assert_eq!(request.path, "/");
    assert_eq!(request.headers, [("x-other".to_string(), "kept".to_string())]);
}

#[test]
fn a_request_can_be_too_large_for_a_guest() {
    let body = vec![0u8; MAX_REQUEST_BYTES + 1];
    let refused =
        guest_request("app", "POST".into(), "/p/app/", String::new(), vec![], body).err().unwrap();
    assert_eq!((refused.status, refused.body.as_str()), (413, "request too large"));
}

#[test]
fn static_files_win_over_the_handler_but_api_never_does() {
    let mut site = Site::new();
    site.publish_handler("app");
    site.write("app/index.html", "<h1>static</h1>");
    // A file that would otherwise shadow the reserved prefix.
    site.write("app/api/echo", "STATIC SHADOW");

    let page = site.get("/p/app/", vec![]);
    assert!(page.body.contains("static"), "handler answered for a real file");
    let api = site.get("/p/app/api/echo", vec![]);
    assert_eq!(api.handler.as_deref(), Some("/api/echo"), "a file shadowed the handler");
}

#[test]
fn an_app_without_a_handler_says_so_rather_than_erroring() {
    let mut site = Site::new();
    site.write("static/index.html", "<h1>hi</h1>");
    assert_eq!(site.get("/p/static/api/anything", vec![]).status, 404);
}

#[test]
fn a_handler_answers_for_routes_with_no_file_behind_them() {
    let mut site = Site::new();
    site.publish_handler("app");
    site.write("app/index.html", "<h1>static</h1>");
    // Not a file, not /api — the handler gets a chance before the 404.
    assert_eq!(site.get("/p/app/echo", vec![]).handler.as_deref(), Some("/echo"));
}

#[test]
fn a_trapping_handler_returns_500_and_leaves_the_server_up() {
    let Relayed::Failed(reply) = handler_reply(Err(())) else { panic!("a trap was relayed") };
    assert_eq!(reply.status, 500);
    assert!(!reply.body.contains("wasm"), "internals leaked to the visitor: {}", reply.body);

    let answered = GuestReply {
        status: 201,
        headers: vec![("a".to_string(), "b".to_string())],
        body: vec![1],
    };
    let Relayed::Guest(relayed) = handler_reply(Ok(answered)) else { panic!("not relayed") };
    assert_eq!((relayed.status, relayed.body), (201, vec![1]));
}

#[test]
fn hiding_an_app_takes_its_handler_down_too() {
    let mut site = Site::new();
    site.publish_handler("app");
    site.write("app/index.html", "<h1>hi</h1>");
    site.write_meta("app", PageMeta { listed: false, hidden: true, ..PageMeta::default() });
    assert_eq!(site.get("/p/app/api/echo", vec![]).status, 404);
}

#[test]
fn a_public_app_needs_no_account() {
    let mut site = Site::new();
    site.write_page("open/index", "<h1>open</h1>");
    assert_eq!(site.get("/p/open/", vec![]).status, 200);
}

#[test]
fn an_authenticated_gate_sends_a_visitor_to_sign_in() {
    let mut site = Site::new();
    site.write_page("members/index", "<h1>members</h1>");
    site.gate("members", "authenticated");

    let stranger = site.get("/p/members/", vec![]);
    assert_eq!(stranger.status, 303);
    assert!(stranger.header("location").starts_with("/auth/login?next="));

    site.account("someone@example.com");
    let token = site.sign_in("someone@example.com");
    // Signing in is not itself entry: the visitor is sent to collect a
    // credential for this app first.
    let known = site.get("/p/members/", site_cookie(&token));
    assert_eq!(known.status, 303);
    assert!(known.header("location").starts_with("/auth/handoff?app=members"));

    let (app_token, _) = site.hand_off(&token, "members");
    let member = site.get("/p/members/", app_cookie("members", &app_token));
    assert_eq!(member.status, 200);
    assert!(member.body.contains("members"));
}

#[test]
fn a_granted_gate_needs_that_specific_grant() {
    let mut site = Site::new();
    site.write_page("private/index", "<h1>private</h1>");
    site.gate("private", "granted");
    site.account("allowed@example.com");
    site.account("outsider@example.com");

    // A stranger is refused outright rather than sent round the handoff: the
    // site session would not satisfy this gate either.
    let outsider = site.sign_in("outsider@example.com");
    let refused = site.get("/p/private/", site_cookie(&outsider));
    assert_eq!(refused.status, 403, "a signed-in stranger got in");
    let (outsider_app, _) = site.hand_off(&outsider, "private");
    let refused = site.get("/p/private/", app_cookie("private", &outsider_app));
    assert_eq!(refused.status, 403, "the handoff granted the app itself");

    grant(&mut site.accounts, "allowed@example.com", "private", "viewer").unwrap();
    let allowed = site.sign_in("allowed@example.com");
    let (allowed_app, _) = site.hand_off(&allowed, "private");
    assert_eq!(site.get("/p/private/", app_cookie("private", &allowed_app)).status, 200);
}

#[test]
fn a_gate_covers_the_handler_and_assets_not_just_the_page() {
    let mut site = Site::new();
    site.publish_handler("members");
    site.gate("members", "authenticated");
    site.write("members/secret.txt", "classified");

    // An API call gets a status, not a redirect into an HTML form.
    assert_eq!(site.get("/p/members/api/echo", vec![]).status, 401);
    assert_ne!(
        site.get("/p/members/secret.txt", vec![]).status,
        200,
        "an asset leaked"
    );
}

#[test]
fn the_longest_rule_decides_for_its_path() {
    let mut site = Site::new();
    site.publish_handler("board");
    let rule = |prefix: &str, gate: &str| PathRule {
        prefix: prefix.to_string(),
        gate: gate.to_string(),
    };
    site.write_meta(
        "board",
        PageMeta {
            rules: vec![rule("/triage", "authenticated"), rule("/triage/open", "public")],
            ..PageMeta::default()
        },
    );
    assert_eq!(site.get("/p/board/", vec![]).status, 200);
    assert_eq!(site.get("/p/board/triage/now", vec![]).status, 303);
    assert_eq!(site.get("/p/board/triage/open", vec![]).status, 200);
}

#[test]
fn a_handler_learns_who_is_signed_in() {
    let mut site = Site::new();
    site.publish_handler("app");

    // Anonymous by default.
    assert!(site.get("/p/app/api/whoami", vec![]).visitor.is_none());

    site.account("someone@example.com");
    let token = site.sign_in("someone@example.com");
    // Being signed in to the site tells this app nothing — identity reaches a
    // guest through the app's own session, or not at all.
    let asked = site.get("/p/app/api/whoami", site_cookie(&token));
    assert!(asked.visitor.is_none(), "the site cookie leaked into a guest");

    let (app_token, _) = site.hand_off(&token, "app");
    let asked = site.get("/p/app/api/whoami", app_cookie("app", &app_token));
    assert_eq!(asked.visitor.unwrap().email, "someone@example.com");
}

#[test]
fn an_invented_cookie_buys_nothing() {
    let mut site = Site::new();
    site.publish_handler("app");
    site.write_page("members/index", "<h1>members</h1>");
    site.gate("members", "authenticated");

    assert_eq!(site.get("/p/members/", site_cookie("forged-token")).status, 303);
    assert!(site.get("/p/app/api/whoami", site_cookie("forged-token")).visitor.is_none());
    // Nor does inventing the app-scoped one, which is the cookie that counts.
    assert_eq!(site.get("/p/members/", app_cookie("members", "forged-token")).status, 303);
    assert!(site.get("/p/app/api/whoami", app_cookie("app", "forged")).visitor.is_none());
}

fn credentials(password: &str, next: Option<&str>) -> Credentials {
    Credentials {
        email: "someone@example.com".to_string(),
        password: password.to_string(),
        next: next.map(str::to_string),
    }
}

#[test]
fn signing_in_sets_a_session_and_signing_out_clears_it() {
    let mut site = Site::new();
    site.account("someone@example.com");

    let form = credentials(PASSWORD, Some("/p/somewhere"));
    let reply = login_submit(&mut site.accounts, &form, NOW);
    assert_eq!(reply.status, 303);
    let cookie = found(&reply, "set-cookie");
    assert!(cookie.contains("HttpOnly") && cookie.contains("Secure"), "{cookie}");
    assert_eq!(found(&reply, "location"), "/p/somewhere");

    let token = cookie.split(';').next().unwrap().trim_start_matches("ts_session=").to_string();
    let reply = site.me(&token);
    assert_eq!(reply.status, 200);
    assert!(reply.body.contains("someone@example.com"));

    logout(&mut site.accounts, Some(&format!("ts_session={token}")));
    assert_eq!(site.me(&token).status, 401, "session survived sign-out");
}

#[test]
fn a_bad_password_does_not_hand_out_a_session() {
    let mut site = Site::new();
    site.account("someone@example.com");
    let reply = login_submit(&mut site.accounts, &credentials("wrong", None), NOW);
    assert_eq!(reply.status, 401);
    assert!(reply.headers.iter().all(|(n, _)| n != "set-cookie"));
}

#[test]
fn the_next_parameter_cannot_bounce_a_visitor_off_site() {
    let mut site = Site::new();
    site.account("someone@example.com");
    for hostile in ["https://evil.example.com/", "//evil.example.com/"] {
        let form = credentials(PASSWORD, Some(hostile));
        let reply = login_submit(&mut site.accounts, &form, NOW);
        assert_eq!(found(&reply, "location"), "/", "open redirect via {hostile}");
    }
}

#[test]
fn a_hostile_page_title_cannot_inject_script_into_the_index() {
    let mut site = Site::new();
    // A title is attacker-influenced content: it comes from a published page.
    site.write_page("nasty", r#"<!doctype html><title><script>alert(1)</script></title>"#);
    let index = site.index(vec![]);
    assert_eq!(index.status, 200);
    assert!(
        !index.body.contains("<script>alert(1)</script>"),
        "the title was written into the index unescaped"
    );
    assert!(index.body.contains("&lt;script&gt;"), "expected an escaped title");
}

#[test]
fn a_hostile_icon_cannot_break_out_of_its_attribute() {
    let mut site = Site::new();
    site.write_page("nasty", "<!doctype html><title>ok</title>");
    // data: URIs are rendered as an img src, so a quote here would escape the
    // attribute if it were interpolated rather than escaped.
    site.write("nasty.icon", r#"data:image/svg+xml,x" onerror="alert(1)"#);
    let body = site.index(vec![]).body;
    assert!(!body.contains(r#"onerror="alert(1)"#), "attribute was broken out of");
}

#[test]
fn a_site_session_alone_opens_no_app() {
    let mut site = Site::new();
    site.publish_handler("members");
    site.write_page("members/index", "<h1>members</h1>");
    site.gate("members", "authenticated");
    site.account("someone@example.com");
    let token = site.sign_in("someone@example.com");

    // The page: not served, only an offer to go and earn a credential.
    let page = site.get("/p/members/", site_cookie(&token));
    assert_eq!(page.status, 303, "the site cookie opened the page");
    assert!(!page.body.contains("members</h1>"));
    assert!(page.header("location").starts_with("/auth/handoff?app=members"));

    // The API: refused with a status, never redirected into a sign-in page,
    // and never quietly upgraded to an app session on a script's say-so.
    let api = site.get("/p/members/api/echo", site_cookie(&token));
    assert_eq!(api.status, 403, "the site cookie opened the API");
    assert!(!api.has("set-cookie"), "the API minted a session");
}

#[test]
fn the_handoff_admits_the_visitor_the_site_session_names() {
    let mut site = Site::new();
    site.publish_handler("members");
    site.write_page("members/index", "<h1>members</h1>");
    site.gate("members", "authenticated");
    site.account("someone@example.com");
    let token = site.sign_in("someone@example.com");
    let (app_token, _) = site.hand_off(&token, "members");

    let page = site.get("/p/members/", app_cookie("members", &app_token));
    assert_eq!(page.status, 200);
    assert!(page.body.contains("members"));

    // And the app learns who it is talking to.
    let asked = site.get("/p/members/api/whoami", app_cookie("members", &app_token));
    assert_eq!(asked.visitor.unwrap().email, "someone@example.com");
}

#[test]
fn the_handoff_cookie_is_confined_to_one_apps_path() {
    let mut site = Site::new();
    site.account("someone@example.com");
    let token = site.sign_in("someone@example.com");
    let (_, cookie) = site.hand_off(&token, "members");

    // The Path is the isolation: the browser will not send this cookie to
    // /p/anything-else/, so no other app can spend it.
    assert!(cookie.contains("Path=/p/members/"), "{cookie}");
    assert!(cookie.starts_with("ts_app_members="), "{cookie}");
    assert!(cookie.contains("HttpOnly"), "{cookie}");
    assert!(cookie.contains("Secure"), "{cookie}");
    assert!(cookie.contains("SameSite=Lax"), "{cookie}");
}

#[test]
fn one_apps_session_is_worthless_against_another_app() {
    let mut site = Site::new();
    for app in ["alpha", "beta"] {
        site.publish_handler(app);
        site.write_page(&format!("{app}/index"), &format!("<h1>{app}</h1>"));
        site.gate(app, "authenticated");
    }
    site.account("someone@example.com");
    let token = site.sign_in("someone@example.com");
    let (alpha, _) = site.hand_off(&token, "alpha");

    // Alpha's own app works.
    assert_eq!(site.get("/p/alpha/", app_cookie("alpha", &alpha)).status, 200);

    // Alpha's token, presented for beta under beta's own cookie name, buys
    // nothing — a scope is checked, not just a cookie's presence.
    let tried = site.get("/p/beta/", app_cookie("beta", &alpha));
    assert_eq!(tried.status, 303, "alpha's session opened beta");
    let tried = site.get("/p/beta/api/whoami", app_cookie("beta", &alpha));
    assert_eq!(tried.status, 401, "alpha's session reached beta's API");

    // And the cookie alpha's script actually holds is not beta's to begin
    // with, so beta sees an anonymous stranger.
    let tried = site.get("/p/beta/api/whoami", app_cookie("alpha", &alpha));
    assert_eq!(tried.status, 401, "beta honoured alpha's cookie");
}

#[test]
fn signing_out_ends_the_app_sessions_too() {
    let mut site = Site::new();
    site.write_page("members/index", "<h1>members</h1>");
    site.gate("members", "authenticated");
    site.account("someone@example.com");
    let token = site.sign_in("someone@example.com");
    let (app_token, _) = site.hand_off(&token, "members");
    assert_eq!(site.get("/p/members/", app_cookie("members", &app_token)).status, 200);

    logout(&mut site.accounts, Some(&format!("ts_session={token}")));
    let after = site.get("/p/members/", app_cookie("members", &app_token));
    assert_eq!(after.status, 303, "an app session survived sign-out");
}

#[test]
fn a_public_app_serves_with_no_cookies_at_all() {
    let mut site = Site::new();
    site.publish_handler("open");
    site.write_page("open/index", "<h1>open</h1>");

    let page = site.get("/p/open/", vec![]);
    assert_eq!(page.status, 200);
    assert!(page.body.contains("open"));
    assert!(site.get("/p/open/api/echo", vec![]).handler.is_some());

    // Nobody is signed in, so the guest is told nobody is.
    assert!(site.get("/p/open/api/whoami", vec![]).visitor.is_none());

    // A visitor who has been through the handoff still gets identity, even
    // though this app never required it.
    site.account("someone@example.com");
    let token = site.sign_in("someone@example.com");
    let (app_token, _) = site.hand_off(&token, "open");
    let asked = site.get("/p/open/api/whoami", app_cookie("open", &app_token));
    assert_eq!(asked.visitor.unwrap().email, "someone@example.com");
}

#[test]
fn the_handoff_refuses_an_app_name_that_is_not_one() {
    let mut site = Site::new();
    site.account("someone@example.com");
    let token = site.sign_in("someone@example.com");

    for hostile in ["../etc/passwd", "a/b", ".site", "with space", ""] {
        let params = HandoffParams { app: hostile.to_string(), next: Some("/".to_string()) };
        let reply = handoff(&mut site.accounts, &params, &site_cookie(&token), NOW);
        assert_eq!(reply.status, 400, "minted a session for {hostile:?}");
        assert!(
            reply.headers.iter().all(|(n, _)| n != "set-cookie"),
            "set a cookie for {hostile:?}"
        );
    }
}

#[test]
fn the_handoff_cannot_bounce_a_visitor_off_site() {
    let mut site = Site::new();
    site.account("someone@example.com");
    let token = site.sign_in("someone@example.com");

    for hostile in ["https://evil.example.com/", "//evil.example.com/"] {
        let params =
            HandoffParams { app: "members".to_string(), next: Some(hostile.to_string()) };
        let reply = handoff(&mut site.accounts, &params, &site_cookie(&token), NOW);
        assert_eq!(found(&reply, "location"), "/", "open redirect via {hostile}");
    }
}

#[test]
fn a_script_cannot_mint_itself_a_session_for_a_neighbour() {
    let mut site = Site::new();
    site.write_page("members/index", "<h1>members</h1>");
    site.gate("members", "authenticated");
    site.account("someone@example.com");
    let token = site.sign_in("someone@example.com");
    let sent = |mode: &str, dest: &str| {
        let mut headers = site_cookie(&token);
        headers.push(("sec-fetch-mode".to_string(), mode.to_string()));
        headers.push(("sec-fetch-dest".to_string(), dest.to_string()));
        headers
    };

    // What `fetch('/auth/handoff?app=members')` from another app looks like.
    let params =
        HandoffParams { app: "members".to_string(), next: Some("/p/members/".to_string()) };
    let reply = handoff(&mut site.accounts, &params, &sent("cors", "empty"), NOW);
    assert_eq!(reply.status, 403);
    assert!(reply.headers.iter().all(|(n, _)| n != "set-cookie"), "a script got a cookie");

    // And the app does not send one there either, so following redirects
    // gains nothing.
    let fetched = site.get("/p/members/", sent("cors", "empty"));
    assert_eq!(fetched.status, 403, "a background fetch was sent to the handoff");

    // The same request as a navigation is the visitor, and is let through.
    let navigated = site.get("/p/members/", sent("navigate", "document"));
    assert_eq!(navigated.status, 303);
    assert!(navigated.header("location").starts_with("/auth/handoff?app=members"));
}

#[test]
fn the_app_root_without_a_slash_does_not_loop() {
    let mut site = Site::new();
    site.write_page("members/index", "<h1>members</h1>");
    site.gate("members", "authenticated");
    site.account("someone@example.com");
    let token = site.sign_in("someone@example.com");

    let bare = site.get("/p/members", site_cookie(&token));
    assert_eq!(
        bare.header("location"),
        "/auth/handoff?app=members&next=%2Fp%2Fmembers%2F",
        "the handoff would return to a path the cookie is not sent to"
    );
}

#[test]
fn the_login_form_cannot_be_used_to_inject_markup() {
    // ?next= is attacker-controlled and lands in a value attribute.
    let next = Some("/p/x\"><script>alert(1)</script>".to_string());
    let reply = login_form(&NextPage { next });
    assert_eq!(reply.status, 200);
    assert!(!reply.body.contains("<script>alert(1)</script>"), "markup was injected");
}

/// The token an admin's own forms carry. Pulled from a rendered page rather
/// than computed, so the test exercises what a browser would actually send.
fn form_token_from(body: &str) -> String {
    let marker = r#"name="token" value=""#;
    let start = body.find(marker).expect("no form token on the page") + marker.len();
    body[start..].split('"').next().unwrap().to_string()
}

fn cookie(token: &str) -> String {
    format!("ts_session={token}")
}

fn new_account(token: &str, email: &str) -> NewAccount {
    NewAccount {
        token: token.to_string(),
        email: email.to_string(),
        password: PASSWORD.to_string(),
        admin: None,
    }
}

#[test]
fn the_admin_page_is_for_admins_only() {
    let mut site = Site::new();
    site.account("ordinary@example.com");
    site.admin_account("boss@example.com");

    // Signed out: sent to sign in.
    assert_eq!(site.admin(None).status, 303);

    // Signed in but ordinary: refused, and not bounced into a login loop.
    let ordinary = site.sign_in("ordinary@example.com");
    assert_eq!(site.admin(Some(&ordinary)).status, 403);

    let boss = site.sign_in("boss@example.com");
    let reply = site.admin(Some(&boss));
    assert_eq!(reply.status, 200);
    assert!(reply.body.contains("ordinary@example.com"), "accounts were not listed");
    assert!(reply.body.contains("1970-01-12"), "when they were made was not shown");
}

#[test]
fn an_admin_can_create_an_account_and_it_can_sign_in() {
    let mut site = Site::new();
    site.admin_account("boss@example.com");
    let boss = site.sign_in("boss@example.com");
    let token = form_token_from(&site.admin(Some(&boss)).body);

    let form = new_account(&token, "new@example.com");
    let reply = add_account(&mut site.accounts, Some(&cookie(&boss)), &form, SECRET, NOW);
    assert_eq!(reply.status, 303);
    // The proof it worked is that the account can actually sign in.
    assert!(log_in(&mut site.accounts, "new@example.com", PASSWORD, NOW).is_ok());
}

#[test]
fn an_admin_can_gate_an_app_and_grant_access_to_it() {
    let mut site = Site::new();
    site.write_page("reports/index", "<h1>reports</h1>");
    site.admin_account("boss@example.com");
    site.account("reader@example.com");
    let boss = site.sign_in("boss@example.com");
    let page = site.admin(Some(&boss)).body;
    assert!(page.contains("reports"), "apps were not listed");
    let token = form_token_from(&page);

    let form = GateChange {
        token: token.clone(),
        app: "reports".to_string(),
        gate: "granted".to_string(),
    };
    let before = site.read_meta("reports");
    let meta =
        change_gate(&mut site.accounts, Some(&cookie(&boss)), &form, before, SECRET, NOW);
    site.write_meta("reports", meta.ok().unwrap());
    assert_eq!(site.get("/p/reports/", vec![]).status, 303, "gate did not take effect");

    let form = AccessChange {
        token,
        app: "reports".to_string(),
        email: "reader@example.com".to_string(),
        allow: "1".to_string(),
    };
    change_access(&mut site.accounts, Some(&cookie(&boss)), &form, SECRET, NOW);
    let reader = log_in(&mut site.accounts, "reader@example.com", PASSWORD, NOW).unwrap().0;
    assert!(has_grant(&site.accounts, &reader, "reports"));
}

#[test]
fn an_admin_action_needs_the_form_token_from_this_session() {
    let mut site = Site::new();
    site.admin_account("boss@example.com");
    let boss = site.sign_in("boss@example.com");

    // A page on this origin can make the admin's browser POST, since the
    // cookie is same-site. The token is what stops it landing.
    for forged in ["", "guessed-token"] {
        let form = new_account(forged, "sneak@example.com");
        let reply = add_account(&mut site.accounts, Some(&cookie(&boss)), &form, SECRET, NOW);
        assert_eq!(reply.status, 403, "token {forged:?} was accepted");
    }
    assert!(
        log_in(&mut site.accounts, "sneak@example.com", PASSWORD, NOW).is_err(),
        "an account was created without a valid form token"
    );
}

#[test]
fn an_ordinary_account_cannot_drive_admin_actions_directly() {
    let mut site = Site::new();
    site.admin_account("boss@example.com");
    site.account("ordinary@example.com");
    let boss = site.sign_in("boss@example.com");
    let ordinary = site.sign_in("ordinary@example.com");
    let token = form_token_from(&site.admin(Some(&boss)).body);

    // Even holding a real admin's form token, the session decides.
    let form = NewAccount {
        admin: Some("1".to_string()),
        ..new_account(&token, "sneak@example.com")
    };
    let reply = add_account(&mut site.accounts, Some(&cookie(&ordinary)), &form, SECRET, NOW);
    assert_eq!(reply.status, 403);
}

#[test]
fn disabling_an_account_ends_the_sessions_it_already_has() {
    let mut site = Site::new();
    site.write_page("members/index", "<h1>members</h1>");
    site.gate("members", "authenticated");
    site.account("someone@example.com");

    // Signed in and working before anything changes.
    let token = site.sign_in("someone@example.com");
    let before = site.get("/p/members/", site_cookie(&token));
    assert_eq!(before.status, 303, "expected the handoff");

    set_active(&mut site.accounts, "someone@example.com", false).unwrap();

    // The point: a live session stops working, rather than lasting until it
    // expires. Checking the flag only at sign-in would miss this.
    assert_eq!(site.me(&token).status, 401);
    assert!(
        log_in(&mut site.accounts, "someone@example.com", PASSWORD, NOW).is_err(),
        "a disabled account signed in"
    );
}

#[test]
fn enabling_an_account_lets_it_back_in() {
    let mut site = Site::new();
    site.account("someone@example.com");
    set_active(&mut site.accounts, "someone@example.com", false).unwrap();
    set_active(&mut site.accounts, "someone@example.com", true).unwrap();

    // Nothing was destroyed, so the same password still works.
    let token = site.sign_in("someone@example.com");
    assert_eq!(site.me(&token).status, 200);
}

#[test]
fn a_disabled_admin_loses_the_admin_page() {
    let mut site = Site::new();
    site.admin_account("boss@example.com");
    site.admin_account("other@example.com");
    let boss = site.sign_in("boss@example.com");
    assert_eq!(site.admin(Some(&boss)).status, 200);

    set_active(&mut site.accounts, "boss@example.com", false).unwrap();
    assert_eq!(site.admin(Some(&boss)).status, 303, "a disabled admin kept the page");
}

#[test]
fn an_admin_cannot_disable_itself_and_lock_everyone_out() {
    let mut site = Site::new();
    site.admin_account("boss@example.com");
    let boss = site.sign_in("boss@example.com");
    let token = form_token_from(&site.admin(Some(&boss)).body);

    let form = ActiveChange {
        token,
        email: "boss@example.com".to_string(),
        active: "0".to_string(),
    };
    let reply = change_active(&mut site.accounts, Some(&cookie(&boss)), &form, SECRET, NOW);
    assert_eq!(reply.status, 400);
    assert_eq!(site.admin(Some(&boss)).status, 200);
}

#[test]
fn an_invited_account_sets_its_own_password_and_is_signed_in() {
    let mut site = Site::new();
    let (_, token) = invite(&mut site.accounts, "new@example.com", false, NOW).unwrap();

    // The form names who it is for, so the person knows what they are joining.
    let form = setup_form(&site.accounts, &token, NOW);
    assert_eq!(form.status, 200);
    assert!(form.body.contains("new@example.com"));

    let reply = setup_submit(&mut site.accounts, &token, PASSWORD, NOW);
    assert_eq!(reply.status, 303);

    // Signed in already: they just proved they hold the link and chose the
    // password, so asking for it again would be theatre.
    let cookie = found(&reply, "set-cookie");
    let session = cookie.split(';').next().unwrap().trim_start_matches("ts_session=");
    let me = site.me(session);
    assert_eq!(me.status, 200);
    assert!(me.body.contains("new@example.com"));

    // And the password works from the front door too.
    assert!(log_in(&mut site.accounts, "new@example.com", PASSWORD, NOW).is_ok());
}

#[test]
fn an_invitation_works_exactly_once() {
    let mut site = Site::new();
    let (_, token) = invite(&mut site.accounts, "new@example.com", false, NOW).unwrap();
    assert_eq!(setup_submit(&mut site.accounts, &token, PASSWORD, NOW).status, 303);
    // A second use must not let anyone reset the password out from under them.
    let again = setup_submit(&mut site.accounts, &token, "someone elses choice", NOW);
    assert_eq!(again.status, 400);
    assert!(
        log_in(&mut site.accounts, "new@example.com", PASSWORD, NOW).is_ok(),
        "the password was changed by a replayed link"
    );
}

#[test]
fn an_account_awaiting_its_password_cannot_sign_in() {
    let mut site = Site::new();
    invite(&mut site.accounts, "new@example.com", false, NOW).unwrap();
    // No password is set yet, so nothing should get past the login form.
    for attempt in ["", PASSWORD, "anything"] {
        assert!(
            log_in(&mut site.accounts, "new@example.com", attempt, NOW).is_err(),
            "signed in with {attempt:?} before a password existed"
        );
    }
}

#[test]
fn a_made_up_or_expired_invitation_is_refused() {
    let mut site = Site::new();
    assert_eq!(setup_form(&site.accounts, "not-a-real-invitation", NOW).status, 410);

    let (_, token) = invite(&mut site.accounts, "new@example.com", false, NOW).unwrap();
    // Re-inviting replaces the outstanding link, so the first one dies.
    reinvite(&mut site.accounts, "new@example.com", NOW).unwrap();
    let replaced = setup_form(&site.accounts, &token, NOW);
    assert_eq!(replaced.status, 410, "a replaced link still worked");
}

#[test]
fn public_and_gated_apps_coexist_without_leaking_into_each_other() {
    let mut site = Site::new();
    site.write_page("openapp/index", "<!doctype html><title>Public Thing</title>");
    site.write_page("members/index", "<!doctype html><title>Members Only</title>");
    site.write_page("secretapp/index", "<!doctype html><title>Salary Review 2026</title>");
    site.gate("members", "authenticated");
    site.gate("secretapp", "granted");
    site.account("someone@example.com");
    grant(&mut site.accounts, "someone@example.com", "secretapp", "viewer").unwrap();

    // Anonymous: the public app only. A gated app's *title* is as sensitive as
    // its contents, so it must not appear either.
    let index = site.index(vec![]).body;
    assert!(index.contains("Public Thing"));
    assert!(!index.contains("Members Only"), "an authenticated app was advertised");
    assert!(!index.contains("Salary Review 2026"), "a granted app was advertised");
    assert_eq!(site.get("/p/openapp/", vec![]).status, 200);
    assert_eq!(site.get("/p/members/", vec![]).status, 303);

    // Signed in: the authenticated app appears, and so does the one granted.
    let token = site.sign_in("someone@example.com");
    let index = site.index(site_cookie(&token)).body;
    assert!(index.contains("Public Thing"));
    assert!(index.contains("Members Only"));
    assert!(index.contains("Salary Review 2026"));
}

#[test]
fn a_grant_on_one_app_does_not_reveal_another() {
    let mut site = Site::new();
    site.write_page("mine/index", "<!doctype html><title>Mine</title>");
    site.write_page("theirs/index", "<!doctype html><title>Theirs</title>");
    site.gate("mine", "granted");
    site.gate("theirs", "granted");
    site.account("someone@example.com");
    grant(&mut site.accounts, "someone@example.com", "mine", "viewer").unwrap();
    let token = site.sign_in("someone@example.com");

    let index = site.index(site_cookie(&token)).body;
    assert!(index.contains("Mine"));
    assert!(!index.contains("Theirs"), "an app they cannot open was listed");
}

#[test]
fn the_password_form_names_the_account_so_a_manager_can_save_it() {
    let mut site = Site::new();
    let (_, token) = invite(&mut site.accounts, "new@example.com", false, NOW).unwrap();
    let form = setup_form(&site.accounts, &token, NOW);
    assert_eq!(form.status, 200);
    // A password manager needs a username field in the same form, or it saves
    // a password with nothing to associate it with.
    assert!(form.body.contains(r#"autocomplete="username""#), "no username field");
    assert!(form.body.contains(r#"value="new@example.com""#), "the email was not filled in");
    assert!(form.body.contains(r#"autocomplete="new-password""#));
}

#[test]
fn every_page_toolsite_serves_itself_shares_one_stylesheet() {
    let mut site = Site::new();
    site.write_page("page", "<!doctype html><title>A page</title>");
    site.admin_account("boss@example.com");
    let boss = site.sign_in("boss@example.com");
    let (_, token) = invite(&mut site.accounts, "new@example.com", false, NOW).unwrap();

    // A token from the shared theme, present only if the page uses it.
    let marker = "--accent:";
    for (name, reply) in [
        ("index", site.index(vec![])),
        ("sign in", login_form(&NextPage { next: None })),
        ("choose a password", setup_form(&site.accounts, &token, NOW)),
        ("admin", site.admin(Some(&boss))),
    ] {
        assert_eq!(reply.status, 200, "{name}");
        assert!(reply.body.contains(marker), "{name} does not use the shared theme");
    }
}

#[test]
fn files_have_the_type_their_ending_says() {
    assert!(content_type_for("a/b.png").starts_with("image/png"));
    assert!(content_type_for("a.SVG").starts_with("image/svg+xml"));
    assert_eq!(content_type_for("a.unheard-of"), "application/octet-stream");
    assert_eq!(sniff_image_type(b"\x89PNG\r\n\x1a\nrest"), "image/png");
}

#[test]
fn an_icon_is_served_by_the_slug_of_its_page() {
    assert_eq!(icon_slug("app/page/").as_deref(), Some("app/page"));
    assert_eq!(icon_slug("../etc"), None);
    assert_eq!(serve_icon(None).status, 404);
    let icon = serve_icon(Some(b"  <svg xmlns='x'/>"));
    assert_eq!(icon.status, 200);
    assert_eq!(found(&icon, "content-type"), "image/svg+xml");
    assert_eq!(found(&icon, "cache-control"), "public, max-age=300");
    // Bytes that are no text are read for what they start with.
    assert_eq!(sniff_image_type(b"\xff\xd8\xff\xe0"), "image/jpeg");
}
