//! Signing in and out, and the handoff from the site to one app: what each
//! request is answered.
//!
//! Deliberately small: sign-in, sign-out, "who am I" and choosing a password.
//! Accounts are created by the owner rather than by open registration, so there
//! is no public signup route to abuse.
use crate::accounts::users::{
    accept_with, accepted_invitation, app_cookie, app_cookie_name, app_cookie_path, app_path,
    app_session_made, app_session_user, create_app_session_with, invitee, invitee_of, is_scope,
    is_user, live_session, log_in_with, log_out, logged_in, no_invitation, only_sessions_change,
    opt_str, owner_of, site_session_user, survives, valid_app_scope, Accounts, Session, User,
    LAST_TIME, SESSION_LIFETIME,
};
use crate::config::Config;
use crate::content::slug::{escape_html, escaped, is_drawn, random_token};
use crate::crypto::random_bytes;
use crate::encode::{json_quote, json_string, percent, url_encode};
use crate::reply::{elsewhere, html, json, plain, with_header, Answer, Reply};
use crate::text::{
    decimal, digits, find, lower, lowered, same, split, split_on, split_once, starts_with, texts,
    trim, trimmed,
};
use crate::ui::{form_document, form_page};
use vstd::prelude::*;

verus! {

/// The site session's cookie.
pub const SESSION_COOKIE: &'static str = "ts_session";

/// The value of a cookie among the parts of a header, from the `i`-th on.
pub open spec fn cookie_from(parts: Seq<Seq<char>>, name: Seq<char>, i: int) -> Option<Seq<char>>
    decreases parts.len() - i,
{
    if i >= parts.len() {
        None
    } else {
        let part = trimmed(parts[i]);
        if part.contains('=') && part.take(find(part, '=')) == name {
            Some(part.skip(find(part, '=') + 1))
        } else {
            cookie_from(parts, name, i + 1)
        }
    }
}

/// The value of a cookie in a Cookie header: of the first that has the name.
pub open spec fn cookie_in(header: Option<Seq<char>>, name: Seq<char>) -> Option<Seq<char>> {
    match header {
        Some(h) => cookie_from(split(h, ';'), name, 0),
        None => None,
    }
}

/// Whether an optional string is the given optional text.
pub open spec fn text_is(r: Option<String>, s: Option<Seq<char>>) -> bool {
    match (r, s) {
        (Some(a), Some(b)) => a@ == b,
        (None, None) => true,
        _ => false,
    }
}

/// The value of a cookie in a Cookie header.
pub fn cookie_value(header: Option<&str>, name: &str) -> (r: Option<String>)
    ensures
        text_is(r, cookie_in(opt_str(header), name@)),
{
    let parts = match header {
        Some(h) => split_on(h, ';'),
        None => {
            return None;
        },
    };
    let ghost all = texts(parts@);
    let mut i: usize = 0;
    while i < parts.len()
        invariant
            i <= parts.len(),
            all == texts(parts@),
            header matches Some(h) && all == split(h@, ';'),
            cookie_from(all, name@, i as int) == cookie_from(all, name@, 0),
        decreases parts.len() - i,
    {
        assert(all[i as int] == parts@[i as int]@);
        let part = trim(parts[i].as_str());
        if let Some((cookie, value)) = split_once(part.as_str(), '=') {
            if same(cookie.as_str(), name) {
                return Some(value);
            }
        }
        i += 1;
    }
    assert(all.len() == parts@.len());
    None
}

/// Reads the site session cookie out of a Cookie header.
pub fn token_from_cookies(header: Option<&str>) -> (r: Option<String>)
    ensures
        text_is(r, cookie_in(opt_str(header), SESSION_COOKIE@)),
{
    cookie_value(header, SESSION_COOKIE)
}

/// Reads one app's session cookie. A request under another app's path never
/// carries it, so this returns nothing for a script asking on another app's
/// behalf.
pub fn app_token_from_cookies(header: Option<&str>, app: &str) -> (r: Option<String>)
    ensures
        text_is(r, cookie_in(opt_str(header), app_cookie(app@))),
{
    cookie_value(header, app_cookie_name(app).as_str())
}

/// The header that sets the site cookie: out of reach of script, and never sent
/// over plain HTTP.
pub open spec fn site_cookie(token: Seq<char>) -> Seq<char> {
    SESSION_COOKIE@ + "="@ + token + "; Path=/; HttpOnly; SameSite=Lax; Secure; Max-Age="@
        + digits(SESSION_LIFETIME as nat)
}

/// The header that sets the site cookie.
pub fn set_cookie_header(token: &str) -> (r: String)
    ensures
        r@ == site_cookie(token@),
{
    SESSION_COOKIE.to_owned().concat("=").concat(token).concat(
        "; Path=/; HttpOnly; SameSite=Lax; Secure; Max-Age=",
    ).concat(decimal(SESSION_LIFETIME).as_str())
}

/// The header that sets an app's cookie: scoped to the app's own subtree, else
/// as the site cookie.
pub open spec fn scoped_cookie(app: Seq<char>, token: Seq<char>, max_age: u64) -> Seq<char> {
    app_cookie(app) + "="@ + token + "; Path="@ + app_path(app)
        + "; HttpOnly; SameSite=Lax; Secure; Max-Age="@ + digits(max_age as nat)
}

/// The header that sets an app's cookie.
pub fn set_app_cookie_header(app: &str, token: &str, max_age: u64) -> (r: String)
    ensures
        r@ == scoped_cookie(app@, token@, max_age),
{
    app_cookie_name(app).concat("=").concat(token).concat("; Path=").concat(
        app_cookie_path(app).as_str(),
    ).concat("; HttpOnly; SameSite=Lax; Secure; Max-Age=").concat(decimal(max_age).as_str())
}

/// The header that takes the site cookie away.
pub open spec fn cleared_cookie() -> Seq<char> {
    SESSION_COOKIE@ + "=; Path=/; HttpOnly; SameSite=Lax; Secure; Max-Age=0"@
}

/// The header that takes the site cookie away.
pub fn clear_cookie_header() -> (r: String)
    ensures
        r@ == cleared_cookie(),
{
    SESSION_COOKIE.to_owned().concat("=; Path=/; HttpOnly; SameSite=Lax; Secure; Max-Age=0")
}

/// Where to go next.
pub struct NextPage {
    pub next: Option<String>,
}

/// Only paths of this site, so `?next=` cannot bounce a signed-in visitor to
/// somebody else's domain.
pub open spec fn safe(next: Option<Seq<char>>) -> Seq<char> {
    match next {
        Some(path) => if "/"@.is_prefix_of(path) && !"//"@.is_prefix_of(path) {
            path
        } else {
            "/"@
        },
        None => "/"@,
    }
}

/// A path of this site to go to next.
pub fn safe_next(next: Option<&str>) -> (r: String)
    ensures
        r@ == safe(opt_str(next)),
{
    match next {
        Some(path) => if starts_with(path, "/") && !starts_with(path, "//") {
            path.to_owned()
        } else {
            "/".to_owned()
        },
        None => "/".to_owned(),
    }
}

/// Whatever is asked for, the next page is a path of this site.
pub proof fn next_stays_on_site(next: Option<Seq<char>>)
    ensures
        "/"@.is_prefix_of(safe(next)),
        !"//"@.is_prefix_of(safe(next)),
{
    reveal_strlit("/");
    reveal_strlit("//");
}

/// Headers of a request: names in lower case, and values.
pub open spec fn header_from(
    headers: Seq<(String, String)>,
    name: Seq<char>,
    i: int,
) -> Option<Seq<char>>
    decreases headers.len() - i,
{
    if i >= headers.len() {
        None
    } else if headers[i].0@ == name {
        Some(headers[i].1@)
    } else {
        header_from(headers, name, i + 1)
    }
}

/// The first value of a header.
pub fn header_value<'a>(headers: &'a Vec<(String, String)>, name: &str) -> (r: Option<&'a str>)
    ensures
        opt_str(r) == header_from(headers@, name@, 0),
{
    let mut i: usize = 0;
    while i < headers.len()
        invariant
            i <= headers.len(),
            header_from(headers@, name@, i as int) == header_from(headers@, name@, 0),
        decreases headers.len() - i,
    {
        if same(headers[i].0.as_str(), name) {
            return Some(headers[i].1.as_str());
        }
        i += 1;
    }
    None
}

/// Whether a header, where it is there, has the value, case apart.
pub open spec fn absent_or(value: Option<Seq<char>>, wanted: Seq<char>) -> bool {
    value matches Some(v) ==> lowered(v) == wanted
}

/// Whether the browser says that this request is the visitor navigating.
pub open spec fn navigates(headers: Seq<(String, String)>) -> bool {
    absent_or(header_from(headers, "sec-fetch-mode"@, 0), "navigate"@) && absent_or(
        header_from(headers, "sec-fetch-dest"@, 0),
        "document"@,
    )
}

/// Whether the browser says this request is the visitor navigating, rather
/// than a page fetching something in the background.
///
/// This is what stops the handoff from being a way around the scoping it
/// exists to serve: without it, a script in one app could fetch the handoff to
/// another, the browser would attach the site cookie, and the other app's
/// cookie would land in the jar for the script to then use. Fetch metadata
/// headers are forbidden header names, so script cannot forge them, and every
/// browser modern enough to be a threat here sends them. A client that sends
/// none at all is taken at face value. An iframe is `iframe`, not `document`,
/// so framing the other app does not help either.
pub fn is_visitor_navigation(headers: &Vec<(String, String)>) -> (r: bool)
    ensures
        r == navigates(headers@),
{
    if let Some(mode) = header_value(headers, "sec-fetch-mode") {
        if !same(lower(mode).as_str(), "navigate") {
            return false;
        }
    }
    if let Some(dest) = header_value(headers, "sec-fetch-dest") {
        if !same(lower(dest).as_str(), "document") {
            return false;
        }
    }
    true
}

/// The page to sign in on.
pub open spec fn login_page(next: Seq<char>) -> Seq<char> {
    form_document(
        "Sign in"@,
        "<form class=\"column\" method=\"post\" action=\"/auth/login\"><h1>Sign in</h1><input type=\"hidden\" name=\"next\" value=\""@
            + escaped(next)
            + "\"><input name=\"email\" type=\"email\" placeholder=\"Email\" autocomplete=\"username\" required autofocus><input name=\"password\" type=\"password\" placeholder=\"Password\" autocomplete=\"current-password\" required><button type=\"submit\">Sign in</button></form>"@,
    )
}

/// The page to sign in on.
pub fn login_form(params: &NextPage) -> (r: Reply)
    ensures
        r@ == html(200, login_page(safe(crate::accounts::users::owned_text(&params.next)))),
{
    let next = match &params.next {
        Some(next) => safe_next(Some(next.as_str())),
        None => safe_next(None),
    };
    let body =
        "<form class=\"column\" method=\"post\" action=\"/auth/login\"><h1>Sign in</h1><input type=\"hidden\" name=\"next\" value=\"".to_owned().concat(
        escape_html(next.as_str()).as_str(),
    ).concat(
        "\"><input name=\"email\" type=\"email\" placeholder=\"Email\" autocomplete=\"username\" required autofocus><input name=\"password\" type=\"password\" placeholder=\"Password\" autocomplete=\"current-password\" required><button type=\"submit\">Sign in</button></form>",
    );
    Reply::html(200, form_page("Sign in", body.as_str()))
}

/// What the sign-in form sends.
pub struct Credentials {
    pub email: String,
    pub password: String,
    pub next: Option<String>,
}

/// The answer to an attempt to sign in.
pub open spec fn login_answer(
    next: Option<Seq<char>>,
    outcome: Result<(User, String), String>,
) -> Answer {
    match outcome {
        Ok((_, token)) => with_header(
            elsewhere(303, safe(next)),
            "set-cookie"@,
            site_cookie(token@),
        ),
        Err(m) => plain(401, m@),
    }
}

/// Signs in with the token that was drawn for the session.
pub fn login_submit_with(
    accounts: &mut Accounts,
    credentials: &Credentials,
    token: String,
    now: u64,
) -> (r: Reply)
    requires
        now <= LAST_TIME,
    ensures
        exists|outcome: Result<(User, String), String>|
            #[trigger] logged_in(
                *old(accounts),
                *final(accounts),
                credentials.email@,
                credentials.password@,
                token@,
                now,
                outcome,
            ) && r@ == login_answer(
                crate::accounts::users::owned_text(&credentials.next),
                outcome,
            ),
        old(accounts).wf() ==> final(accounts).wf(),
{
    let next = match &credentials.next {
        Some(next) => safe_next(Some(next.as_str())),
        None => safe_next(None),
    };
    let outcome = log_in_with(
        accounts,
        credentials.email.as_str(),
        credentials.password.as_str(),
        token,
        now,
    );
    let ghost seen = outcome;
    match outcome {
        Ok((_, token)) => Reply::elsewhere(303, next.as_str()).with(
            "set-cookie",
            set_cookie_header(token.as_str()).as_str(),
        ),
        Err(m) => Reply::plain(401, m),
    }
}

/// Signs in: a redirect with the session's cookie, or the reason why not.
pub fn login_submit(accounts: &mut Accounts, credentials: &Credentials, now: u64) -> (r: Reply)
    requires
        now <= LAST_TIME,
    ensures
        exists|token: Seq<char>, outcome: Result<(User, String), String>|
            is_drawn(token, 48) && #[trigger] logged_in(
                *old(accounts),
                *final(accounts),
                credentials.email@,
                credentials.password@,
                token,
                now,
                outcome,
            ) && r@ == login_answer(
                crate::accounts::users::owned_text(&credentials.next),
                outcome,
            ),
        old(accounts).wf() ==> final(accounts).wf(),
{
    let token = random_token(48);
    login_submit_with(accounts, credentials, token, now)
}

/// Signs out whoever the cookie belongs to, and takes the cookie away.
pub fn logout(accounts: &mut Accounts, cookies: Option<&str>) -> (r: Reply)
    ensures
        r@ == with_header(elsewhere(303, "/"@), "set-cookie"@, cleared_cookie()),
        only_sessions_change(*old(accounts), *final(accounts)),
        match cookie_in(opt_str(cookies), SESSION_COOKIE@) {
            Some(token) => final(accounts).sessions@ == old(accounts).sessions@.filter(
                |s: Session| survives(s, token, owner_of(*old(accounts), token)),
            ),
            None => final(accounts).sessions@ == old(accounts).sessions@,
        },
        old(accounts).wf() ==> final(accounts).wf(),
{
    if let Some(token) = token_from_cookies(cookies) {
        log_out(accounts, token.as_str());
    }
    Reply::elsewhere(303, "/").with("set-cookie", clear_cookie_header().as_str())
}

/// The live site session that a Cookie header carries.
pub open spec fn site_visitor(
    accounts: Accounts,
    cookies: Option<Seq<char>>,
    now: u64,
) -> Option<(Session, crate::accounts::users::Account)> {
    match cookie_in(cookies, SESSION_COOKIE@) {
        Some(token) => live_session(accounts, token, None, now),
        None => None,
    }
}

/// The live session of an app that a Cookie header carries.
pub open spec fn app_visitor(
    accounts: Accounts,
    app: Seq<char>,
    cookies: Option<Seq<char>>,
    now: u64,
) -> Option<(Session, crate::accounts::users::Account)> {
    match cookie_in(cookies, app_cookie(app)) {
        Some(token) => if is_scope(app) {
            live_session(accounts, token, Some(app), now)
        } else {
            None
        },
        None => None,
    }
}

/// Resolves the caller from their *site* session cookie, if any. Says who the
/// person is; says nothing about what they may reach.
pub fn current_site_user(accounts: &mut Accounts, cookies: Option<&str>, now: u64) -> (r: Option<
    User,
>)
    ensures
        is_user(r, site_visitor(*old(accounts), opt_str(cookies), now)),
        only_sessions_change(*old(accounts), *final(accounts)),
        final(accounts).sessions@ == old(accounts).sessions@ || final(accounts).sessions@ == old(
            accounts,
        ).sessions@.filter(|s: Session| s.expires_at >= now),
        old(accounts).wf() ==> final(accounts).wf(),
{
    match token_from_cookies(cookies) {
        Some(token) => site_session_user(accounts, token.as_str(), now),
        None => None,
    }
}

/// Resolves the caller from the cookie scoped to `app`, and only that cookie.
/// This is what an app's gate and its own view of the visitor run on.
pub fn current_app_user(
    accounts: &mut Accounts,
    app: &str,
    cookies: Option<&str>,
    now: u64,
) -> (r: Option<User>)
    ensures
        is_user(r, app_visitor(*old(accounts), app@, opt_str(cookies), now)),
        only_sessions_change(*old(accounts), *final(accounts)),
        final(accounts).sessions@ == old(accounts).sessions@ || final(accounts).sessions@ == old(
            accounts,
        ).sessions@.filter(|s: Session| s.expires_at >= now),
        old(accounts).wf() ==> final(accounts).wf(),
{
    match app_token_from_cookies(cookies, app) {
        Some(token) => app_session_user(accounts, token.as_str(), app, now),
        None => None,
    }
}

/// Who someone is, as JSON.
pub open spec fn me_json(email: Seq<char>, id: Seq<char>) -> Seq<char> {
    "{\"email\":"@ + json_string(email) + ",\"id\":"@ + json_string(id) + "}"@
}

/// Says who the caller is.
pub fn me(user: &Option<User>) -> (r: Reply)
    ensures
        r@ == match *user {
            Some(u) => json(200, me_json(u.email@, u.id@)),
            None => plain(401, "not signed in"@),
        },
{
    match user {
        Some(u) => Reply::json(
            200,
            "{\"email\":".to_owned().concat(json_quote(u.email.as_str()).as_str()).concat(
                ",\"id\":",
            ).concat(json_quote(u.id.as_str()).as_str()).concat("}"),
        ),
        None => Reply::says(401, "not signed in"),
    }
}

/// What the handoff is asked for.
pub struct HandoffParams {
    pub app: String,
    pub next: Option<String>,
}

/// The way to the sign-in page.
pub open spec fn sign_in(next: Seq<char>) -> Answer {
    elsewhere(303, "/auth/login?next="@ + percent(next))
}

/// The way to the sign-in page.
pub fn to_sign_in(next: &str) -> (r: Reply)
    ensures
        r@ == sign_in(next@),
{
    Reply::elsewhere(303, "/auth/login?next=".to_owned().concat(url_encode(next).as_str()).as_str())
}

/// Why a handoff is refused before any session is looked at.
pub open spec fn handoff_refusal(app: Seq<char>, headers: Seq<(String, String)>) -> Option<Answer> {
    if !is_scope(app) {
        Some(plain(400, "invalid app name"@))
    } else if !navigates(headers) {
        Some(plain(403, "an app session is issued to a visitor, not to a script"@))
    } else {
        None
    }
}

/// The answer once the site session was tried: an expired or forged one is not
/// an error to report, it is a reason to sign in again.
pub open spec fn handoff_answer(
    app: Seq<char>,
    next: Seq<char>,
    outcome: Result<(User, String, u64), String>,
) -> Answer {
    match outcome {
        Ok((_, token, max_age)) => with_header(
            elsewhere(303, next),
            "set-cookie"@,
            scoped_cookie(app, token@, max_age),
        ),
        Err(_) => sign_in(next),
    }
}

/// What the handoff does, given the token drawn for the app session.
pub open spec fn handed_off(
    before: Accounts,
    after: Accounts,
    app: Seq<char>,
    asked: Option<Seq<char>>,
    headers: Seq<(String, String)>,
    token: Seq<char>,
    now: u64,
    r: Answer,
) -> bool {
    match handoff_refusal(app, headers) {
        Some(refused) => r == refused && after == before,
        None => match cookie_in(header_from(headers, "cookie"@, 0), SESSION_COOKIE@) {
            None => r == sign_in(safe(asked)) && after == before,
            Some(site) => exists|outcome: Result<(User, String, u64), String>|
                #[trigger] app_session_made(before, after, site, app, token, now, outcome) && r
                    == handoff_answer(app, safe(asked), outcome),
        },
    }
}

/// Trades a site session for an app session with the token drawn for it.
pub fn handoff_with(
    accounts: &mut Accounts,
    params: &HandoffParams,
    headers: &Vec<(String, String)>,
    token: String,
    now: u64,
) -> (r: Reply)
    requires
        now <= LAST_TIME,
    ensures
        handed_off(
            *old(accounts),
            *final(accounts),
            params.app@,
            crate::accounts::users::owned_text(&params.next),
            headers@,
            token@,
            now,
            r@,
        ),
        old(accounts).wf() ==> final(accounts).wf(),
{
    let next = match &params.next {
        Some(next) => safe_next(Some(next.as_str())),
        None => safe_next(None),
    };
    if !valid_app_scope(params.app.as_str()) {
        return Reply::says(400, "invalid app name");
    }
    if !is_visitor_navigation(headers) {
        return Reply::says(403, "an app session is issued to a visitor, not to a script");
    }
    let site = match token_from_cookies(header_value(headers, "cookie")) {
        Some(site) => site,
        None => {
            return to_sign_in(next.as_str());
        },
    };
    let outcome = create_app_session_with(accounts, site.as_str(), params.app.as_str(), token, now);
    let ghost seen = outcome;
    match outcome {
        Ok((_, token, max_age)) => {
            let cookie = set_app_cookie_header(params.app.as_str(), token.as_str(), max_age);
            let r = Reply::elsewhere(303, next.as_str()).with("set-cookie", cookie.as_str());
            assert(app_session_made(
                *old(accounts),
                *accounts,
                site@,
                params.app@,
                token@,
                now,
                seen,
            ) && r@ == handoff_answer(params.app@, next@, seen));
            r
        },
        Err(_) => {
            let r = to_sign_in(next.as_str());
            assert(r@ == handoff_answer(params.app@, next@, seen));
            r
        },
    }
}

/// Trades a site session for a session scoped to one app.
///
/// This is the only door between the two tiers. Being signed in does not
/// admit anyone anywhere by itself; walking through here does, for one app,
/// and hands back a cookie the browser will only ever send to that app.
pub fn handoff(
    accounts: &mut Accounts,
    params: &HandoffParams,
    headers: &Vec<(String, String)>,
    now: u64,
) -> (r: Reply)
    requires
        now <= LAST_TIME,
    ensures
        exists|token: Seq<char>|
            is_drawn(token, 48) && #[trigger] handed_off(
                *old(accounts),
                *final(accounts),
                params.app@,
                crate::accounts::users::owned_text(&params.next),
                headers@,
                token,
                now,
                r@,
            ),
        old(accounts).wf() ==> final(accounts).wf(),
{
    let token = random_token(48);
    handoff_with(accounts, params, headers, token, now)
}

/// A script cannot mint itself a session for a neighbour: a request that is not
/// the visitor navigating gets nothing, and changes nothing.
pub proof fn handoff_is_for_visitors(
    before: Accounts,
    after: Accounts,
    app: Seq<char>,
    asked: Option<Seq<char>>,
    headers: Seq<(String, String)>,
    token: Seq<char>,
    now: u64,
    r: Answer,
)
    requires
        handed_off(before, after, app, asked, headers, token, now, r),
        !navigates(headers),
    ensures
        after == before,
        r.status == 400 || r.status == 403,
{
}

/// The page on which an invited person chooses a password. It names the
/// account in the same form, so that a password manager can save both.
pub open spec fn setup_page(email: Seq<char>, token: Seq<char>) -> Seq<char> {
    form_document(
        "Choose a password"@,
        "<form class=\"column\" method=\"post\" action=\"/auth/setup\"><h1>Choose a password</h1><input type=\"hidden\" name=\"token\" value=\""@
            + escaped(token)
            + "\"><input name=\"email\" type=\"email\" autocomplete=\"username\" value=\""@
            + escaped(email)
            + "\" readonly><input name=\"password\" type=\"password\" placeholder=\"Password (8+)\" autocomplete=\"new-password\" required autofocus><button type=\"submit\">Save</button></form>"@,
    )
}

/// The page on which an invited person chooses a password, while the link
/// works.
pub fn setup_form(accounts: &Accounts, token: &str, now: u64) -> (r: Reply)
    ensures
        r@ == match invitee_of(*accounts, token@, now) {
            Some(a) => html(200, setup_page(a.email@, token@)),
            None => plain(410, no_invitation()),
        },
{
    match invitee(accounts, token, now) {
        Some(user) => {
            let body =
                "<form class=\"column\" method=\"post\" action=\"/auth/setup\"><h1>Choose a password</h1><input type=\"hidden\" name=\"token\" value=\"".to_owned().concat(
                escape_html(token).as_str(),
            ).concat(
                "\"><input name=\"email\" type=\"email\" autocomplete=\"username\" value=\"",
            ).concat(escape_html(user.email.as_str()).as_str()).concat(
                "\" readonly><input name=\"password\" type=\"password\" placeholder=\"Password (8+)\" autocomplete=\"new-password\" required autofocus><button type=\"submit\">Save</button></form>",
            );
            Reply::html(200, form_page("Choose a password", body.as_str()))
        },
        None => Reply::says(410, "that link has expired or was already used"),
    }
}

/// The answer to a password that was chosen.
pub open spec fn setup_answer(outcome: Result<(User, String), String>) -> Answer {
    match outcome {
        Ok((_, token)) => with_header(elsewhere(303, "/"@), "set-cookie"@, site_cookie(token@)),
        Err(m) => plain(400, m@),
    }
}

/// Takes the password that an invited person chose, with the salt and the
/// session token that were drawn.
pub fn setup_submit_with(
    accounts: &mut Accounts,
    token: &str,
    password: &str,
    salt: &Vec<u8>,
    session: String,
    now: u64,
) -> (r: Reply)
    requires
        now <= LAST_TIME,
        salt.len() == 16,
    ensures
        exists|outcome: Result<(User, String), String>|
            #[trigger] accepted_invitation(
                *old(accounts),
                *final(accounts),
                token@,
                password@,
                salt@,
                session@,
                now,
                outcome,
            ) && r@ == setup_answer(outcome),
        old(accounts).wf() ==> final(accounts).wf(),
{
    let outcome = accept_with(accounts, token, password, salt, session, now);
    let ghost seen = outcome;
    match outcome {
        Ok((_, session)) => Reply::elsewhere(303, "/").with(
            "set-cookie",
            set_cookie_header(session.as_str()).as_str(),
        ),
        Err(m) => Reply::plain(400, m),
    }
}

/// Takes the password that an invited person chose, and signs them in.
pub fn setup_submit(accounts: &mut Accounts, token: &str, password: &str, now: u64) -> (r: Reply)
    requires
        now <= LAST_TIME,
    ensures
        exists|salt: Seq<u8>, session: Seq<char>, outcome: Result<(User, String), String>|
            salt.len() == 16 && is_drawn(session, 48) && #[trigger] accepted_invitation(
                *old(accounts),
                *final(accounts),
                token@,
                password@,
                salt,
                session,
                now,
                outcome,
            ) && r@ == setup_answer(outcome),
        old(accounts).wf() ==> final(accounts).wf(),
{
    let salt = random_bytes(16);
    let session = random_token(48);
    setup_submit_with(accounts, token, password, &salt, session, now)
}

/// The link that an invitation is sent as.
pub open spec fn invite_link(config: Config, token: Seq<char>) -> Seq<char> {
    config.public_base() + "/auth/setup?token="@ + token
}

/// The link that an invitation is sent as.
pub fn invite_url(config: &Config, token: &str) -> (r: String)
    ensures
        r@ == invite_link(*config, token@),
{
    let base: String = match &config.base_url {
        Some(base) => base.clone(),
        None => config.local_base.clone(),
    };
    base.concat("/auth/setup?token=").concat(token)
}

} // verus!
