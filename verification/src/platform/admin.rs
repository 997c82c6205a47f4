//! Accounts and access, for whoever runs the site.
//!
//! This is a platform route rather than a published app on purpose: an app
//! cannot read the account database — that isolation is the thing every other
//! guarantee rests on — so an "admin app" could only exist by breaking it.
//!
//! Every action here is a POST carrying a token derived from the caller's own
//! account. Cookies are `SameSite=Lax`, which already refuses a cross-site
//! POST; the token is what stops a page on *this* origin from acting as the
//! admin who happens to be visiting it.
use crate::accounts::rows::{find, first_from};
use crate::accounts::users::{
    activity_set, grant, grant_made, has_email, has_id, is_user, no_account, normal,
    only_grants_change, only_sessions_change, opt_str, outlives, revoke, set_active, sign_up_with,
    signed_up, Account, Accounts, Grant, Session, User,
};
use crate::accounts::web::{current_site_user, site_visitor};
use crate::content::slug::{escape_html, escaped, is_drawn, is_slug, random_token, valid_slug};
use crate::content::store::PageMeta;
use crate::crypto::{hash_token, random_bytes, token_hash};
use crate::platform::manifest::{is_gate, valid_gate};
use crate::platform::schedule::{rfc3339, to_rfc3339};
use crate::platform::upload::{app_name, app_of};
use crate::reply::{elsewhere, html, plain, with_header, Answer, Reply};
use crate::table::Table;
use crate::text::{
    in_order, lowered, pairs, same, same_ignoring_case, texts, trim, trimmed,
};
use crate::ui::{document, page as full_page};
use vstd::prelude::*;

verus! {

/// What a visitor who is no admin is answered. Someone signed in but not an
/// admin is told no, not sent to sign in again — that would loop.
pub open spec fn admin_refusal(visitor: Option<(Session, Account)>) -> Option<Answer> {
    match visitor {
        Some((_, account)) => if account.is_admin {
            None
        } else {
            Some(plain(403, "not an admin"@))
        },
        None => Some(elsewhere(303, "/auth/login?next=/admin"@)),
    }
}

/// The account of a visitor who has a session.
pub open spec fn who(visitor: Option<(Session, Account)>) -> Account
    recommends
        visitor is Some,
{
    let found = visitor->0;
    found.1
}

/// Whether resolving a visitor did no more than forget expired sessions.
pub open spec fn visited(before: Accounts, after: Accounts, now: u64) -> bool {
    &&& only_sessions_change(before, after)
    &&& after.sessions@ == before.sessions@ || after.sessions@ == before.sessions@.filter(
        |s: Session| s.expires_at >= now,
    )
    &&& before.wf() ==> after.wf()
}

/// Resolves an admin from the request, or the answer to give instead.
pub fn require_admin(accounts: &mut Accounts, cookies: Option<&str>, now: u64) -> (r: Result<
    User,
    Reply,
>)
    ensures
        visited(*old(accounts), *final(accounts), now),
        match r {
            Ok(user) => admin_refusal(site_visitor(*old(accounts), opt_str(cookies), now)) is None
                && is_user(Some(user), site_visitor(*old(accounts), opt_str(cookies), now)),
            Err(reply) => admin_refusal(site_visitor(*old(accounts), opt_str(cookies), now))
                == Some(reply@),
        },
{
    match current_site_user(accounts, cookies, now) {
        Some(user) => if user.is_admin {
            Ok(user)
        } else {
            Err(Reply::says(403, "not an admin"))
        },
        None => Err(Reply::elsewhere(303, "/auth/login?next=/admin")),
    }
}

/// What ties a form to the admin whom it was rendered for.
pub open spec fn form_mark(secret: Seq<char>, user_id: Seq<char>) -> Seq<char> {
    token_hash(secret + "/"@ + user_id)
}

/// Ties a form to the account that it was rendered for. Not the session token
/// itself, so a leaked page cannot be replayed as a credential.
pub fn form_token(secret: &str, user: &User) -> (r: String)
    ensures
        r@ == form_mark(secret@, user.id@),
{
    hash_token(secret.to_owned().concat("/").concat(user.id.as_str()).as_str())
}

/// Whether a form carries the token of its sender.
pub fn check_form_token(secret: &str, user: &User, presented: &str) -> (r: bool)
    ensures
        r == (presented@ == form_mark(secret@, user.id@)),
{
    same(form_token(secret, user).as_str(), presented)
}

/// What the sender of a form is answered where it is not acted on.
pub open spec fn form_refusal(
    visitor: Option<(Session, Account)>,
    secret: Seq<char>,
    presented: Seq<char>,
) -> Option<Answer> {
    match (admin_refusal(visitor), visitor) {
        (None, Some((_, account))) => if presented == form_mark(secret, account.id@) {
            None
        } else {
            Some(plain(403, "stale form; reload and try again"@))
        },
        (refusal, _) => refusal,
    }
}

/// Resolves the admin who sent a form, or the answer to give instead.
pub fn require_form(
    accounts: &mut Accounts,
    cookies: Option<&str>,
    secret: &str,
    presented: &str,
    now: u64,
) -> (r: Result<User, Reply>)
    ensures
        visited(*old(accounts), *final(accounts), now),
        match r {
            Ok(user) => form_refusal(
                site_visitor(*old(accounts), opt_str(cookies), now),
                secret@,
                presented@,
            ) is None && is_user(Some(user), site_visitor(*old(accounts), opt_str(cookies), now)),
            Err(reply) => form_refusal(
                site_visitor(*old(accounts), opt_str(cookies), now),
                secret@,
                presented@,
            ) == Some(reply@),
        },
{
    match require_admin(accounts, cookies, now) {
        Ok(user) => if check_form_token(secret, &user, presented) {
            Ok(user)
        } else {
            Err(Reply::says(403, "stale form; reload and try again"))
        },
        Err(reply) => Err(reply),
    }
}

/// What the sender of a form is answered by what came of it.
pub open spec fn outcome(refused: Option<Seq<char>>) -> Answer {
    match refused {
        None => elsewhere(303, "/admin"@),
        Some(m) => plain(400, m),
    }
}

/// An account as it is listed.
pub struct AccountLine {
    pub email: String,
    pub created: String,
    pub is_admin: bool,
    pub is_active: bool,
}

/// When an account was made, in words.
pub open spec fn created(account: Account) -> Seq<char> {
    if account.created_at <= i64::MAX {
        match rfc3339(account.created_at as i64) {
            Some(s) => s,
            None => ""@,
        }
    } else {
        ""@
    }
}

/// Whether a line lists an account.
pub open spec fn lists(line: AccountLine, account: Account) -> bool {
    &&& line.email@ == account.email@
    &&& line.created@ == created(account)
    &&& line.is_admin == account.is_admin
    &&& line.is_active == account.is_active
}

/// The accounts of the site, in the order they were made in.
pub fn list_accounts(accounts: &Accounts) -> (r: Vec<AccountLine>)
    ensures
        r.len() == accounts.users.len(),
        forall|i: int| 0 <= i < r.len() ==> lists(#[trigger] r@[i], accounts.users@[i]),
{
    let mut r: Vec<AccountLine> = Vec::new();
    let mut i: usize = 0;
    while i < accounts.users.len()
        invariant
            i <= accounts.users.len(),
            r.len() == i,
            forall|j: int| 0 <= j < i ==> lists(#[trigger] r@[j], accounts.users@[j]),
        decreases accounts.users.len() - i,
    {
        let account = &accounts.users[i];
        let made: String = if account.created_at <= i64::MAX as u64 {
            match to_rfc3339(account.created_at as i64) {
                Some(s) => s,
                None => "".to_owned(),
            }
        } else {
            "".to_owned()
        };
        r.push(
            AccountLine {
                email: account.email.clone(),
                created: made,
                is_admin: account.is_admin,
                is_active: account.is_active,
            },
        );
        i += 1;
    }
    r
}

/// The app and the email of each grant whose account is there.
pub open spec fn granted_to(accounts: Accounts, grants: Seq<Grant>) -> Seq<(Seq<char>, Seq<char>)>
    decreases grants.len(),
{
    if grants.len() == 0 {
        Seq::empty()
    } else {
        let before = granted_to(accounts, grants.drop_last());
        match accounts.by_id(grants.last().user_id@) {
            Some(account) => before.push((grants.last().app@, account.email@)),
            None => before,
        }
    }
}

/// Who has access to what.
pub fn list_grants(accounts: &Accounts) -> (r: Vec<(String, String)>)
    ensures
        pairs(r@) == granted_to(*accounts, accounts.grants@),
{
    let ghost gs = accounts.grants@;
    let mut r: Vec<(String, String)> = Vec::new();
    let mut i: usize = 0;
    proof {
        assert(pairs(r@) =~= granted_to(*accounts, gs.take(0)));
    }
    while i < accounts.grants.len()
        invariant
            i <= accounts.grants.len(),
            gs == accounts.grants@,
            pairs(r@) == granted_to(*accounts, gs.take(i as int)),
        decreases accounts.grants.len() - i,
    {
        let g = &accounts.grants[i];
        let id = g.user_id.as_str();
        let test = |a: &Account| -> (b: bool)
            ensures
                b == (a.id@ == id@)
        {
            same(a.id.as_str(), id)
        };
        let found = find(&accounts.users, test, Ghost(has_id(id@)));
        proof {
            assert(gs.take(i + 1).drop_last() =~= gs.take(i as int));
            assert(gs.take(i + 1).last() == gs[i as int]);
        }
        if let Some(k) = found {
            let ghost before = r@;
            let email = accounts.users[k].email.clone();
            let ghost e = email@;
            r.push((g.app.clone(), email));
            assert(pairs(r@) =~= pairs(before).push((gs[i as int].app@, e)));
        }
        i += 1;
    }
    proof {
        assert(gs.take(gs.len() as int) =~= gs);
    }
    r
}

/// Whether a list holds the apps that pages belong to, and nothing else.
pub open spec fn are_apps(listed: Seq<Seq<char>>, slugs: Seq<Seq<char>>) -> bool {
    forall|k: Seq<char>| #[trigger]
        listed.contains(k) == exists|i: int| 0 <= i < slugs.len() && app_of(#[trigger] slugs[i]) == k
}

/// The apps that pages belong to, each once and in order.
pub fn list_apps(slugs: &Vec<String>) -> (r: Vec<String>)
    ensures
        in_order(texts(r@)),
        texts(r@).no_duplicates(),
        are_apps(texts(r@), texts(slugs@)),
{
    let ghost all = texts(slugs@);
    let mut seen: Table<bool> = Table::new();
    let mut i: usize = 0;
    while i < slugs.len()
        invariant
            i <= slugs.len(),
            all == texts(slugs@),
            forall|k: Seq<char>| #[trigger]
                seen@.contains_key(k) == exists|j: int|
                    0 <= j < i && app_of(#[trigger] all[j]) == k,
        decreases slugs.len() - i,
    {
        let app = app_name(slugs[i].as_str());
        let ghost before = seen@;
        let ghost a = app@;
        assert(a == app_of(all[i as int]));
        seen.insert(app, true);
        proof {
            assert forall|k: Seq<char>| #[trigger] seen@.contains_key(k) == exists|j: int|
                0 <= j < i + 1 && app_of(#[trigger] all[j]) == k by {
                if before.contains_key(k) {
                    let j = choose|j: int| 0 <= j < i && app_of(#[trigger] all[j]) == k;
                    assert(app_of(all[j]) == k);
                }
                if k == a {
                    assert(app_of(all[i as int]) == k);
                }
            }
        }
        i += 1;
    }
    let r = seen.names();
    proof {
        assert forall|k: Seq<char>| #[trigger] texts(r@).contains(k) == exists|j: int|
            0 <= j < slugs.len() && app_of(#[trigger] all[j]) == k by {
            assert(texts(r@).contains(k) == seen@.contains_key(k));
        }
    }
    r
}

/// A field that is sent along with a form.
pub open spec fn hidden(name: Seq<char>, value: Seq<char>) -> Seq<char> {
    "<input type=\"hidden\" name=\""@ + name + "\" value=\""@ + escaped(value) + "\">"@
}

/// A field that is sent along with a form.
fn hidden_field(name: &str, value: &str) -> (r: String)
    ensures
        r@ == hidden(name@, value@),
{
    "<input type=\"hidden\" name=\"".to_owned().concat(name).concat("\" value=\"").concat(
        escape_html(value).as_str(),
    ).concat("\">")
}

/// What a form that changes something begins with: where it is sent, and the
/// token that it must carry.
pub open spec fn form_head(action: Seq<char>, token: Seq<char>) -> Seq<char> {
    "<form class=\"row\" method=\"post\" action=\""@ + action + "\">"@ + hidden("token"@, token)
}

/// What a form that changes something begins with.
fn form_start(action: &str, token: &str) -> (r: String)
    ensures
        r@ == form_head(action@, token@),
{
    "<form class=\"row\" method=\"post\" action=\"".to_owned().concat(action).concat("\">").concat(
        hidden_field("token", token).as_str(),
    )
}

/// An account in the table of them.
pub open spec fn account_row(line: AccountLine, token: Seq<char>) -> Seq<char> {
    "<tr><td>"@ + escaped(line.email@) + "</td><td class=\"muted\">"@ + escaped(line.created@)
        + "</td><td>"@ + if line.is_admin {
        "yes"@
    } else {
        ""@
    } + "</td><td>"@ + if line.is_active {
        "active"@
    } else {
        "disabled"@
    } + "</td><td>"@ + form_head("/admin/active"@, token) + hidden("email"@, line.email@)
        + hidden(
        "active"@,
        if line.is_active {
            "0"@
        } else {
            "1"@
        },
    ) + if line.is_active {
        "<button class=\"danger\" type=\"submit\">Disable</button>"@
    } else {
        "<button type=\"submit\">Enable</button>"@
    } + "</form></td></tr>"@
}

/// An account in the table of them.
fn account_markup(line: &AccountLine, token: &str) -> (r: String)
    ensures
        r@ == account_row(*line, token@),
{
    "<tr><td>".to_owned().concat(escape_html(line.email.as_str()).as_str()).concat(
        "</td><td class=\"muted\">",
    ).concat(escape_html(line.created.as_str()).as_str()).concat("</td><td>").concat(
        if line.is_admin {
            "yes"
        } else {
            ""
        },
    ).concat("</td><td>").concat(
        if line.is_active {
            "active"
        } else {
            "disabled"
        },
    ).concat("</td><td>").concat(form_start("/admin/active", token).as_str()).concat(
        hidden_field("email", line.email.as_str()).as_str(),
    ).concat(
        hidden_field(
            "active",
            if line.is_active {
                "0"
            } else {
                "1"
            },
        ).as_str(),
    ).concat(
        if line.is_active {
            "<button class=\"danger\" type=\"submit\">Disable</button>"
        } else {
            "<button type=\"submit\">Enable</button>"
        },
    ).concat("</form></td></tr>")
}

/// The rows of the table of accounts.
pub open spec fn account_rows(lines: Seq<AccountLine>, token: Seq<char>) -> Seq<char>
    decreases lines.len(),
{
    if lines.len() == 0 {
        Seq::empty()
    } else {
        account_rows(lines.drop_last(), token) + account_row(lines.last(), token)
    }
}

/// One gate in the list to choose from.
pub open spec fn gate_option(option: Seq<char>, gate: Seq<char>) -> Seq<char> {
    "<option value=\""@ + option + if option == gate {
        "\" selected>"@
    } else {
        "\">"@
    } + option + "</option>"@
}

/// One gate in the list to choose from.
fn option_markup(option: &str, gate: &str) -> (r: String)
    ensures
        r@ == gate_option(option@, gate@),
{
    "<option value=\"".to_owned().concat(option).concat(
        if same(option, gate) {
            "\" selected>"
        } else {
            "\">"
        },
    ).concat(option).concat("</option>")
}

/// An app in the table of them, with what it asks for.
pub open spec fn app_row(app: (Seq<char>, Seq<char>), token: Seq<char>) -> Seq<char> {
    "<tr><td><a href=\"/p/"@ + escaped(app.0) + "/\">"@ + escaped(app.0)
        + "</a></td><td><code>"@ + escaped(app.1) + "</code></td><td>"@ + form_head(
        "/admin/gate"@,
        token,
    ) + hidden("app"@, app.0) + "<select name=\"gate\">"@ + gate_option("public"@, app.1)
        + gate_option("authenticated"@, app.1) + gate_option("granted"@, app.1)
        + "</select><button type=\"submit\">Set</button></form></td></tr>"@
}

/// An app in the table of them.
fn app_markup(app: &str, gate: &str, token: &str) -> (r: String)
    ensures
        r@ == app_row((app@, gate@), token@),
{
    "<tr><td><a href=\"/p/".to_owned().concat(escape_html(app).as_str()).concat("/\">").concat(
        escape_html(app).as_str(),
    ).concat("</a></td><td><code>").concat(escape_html(gate).as_str()).concat(
        "</code></td><td>",
    ).concat(form_start("/admin/gate", token).as_str()).concat(
        hidden_field("app", app).as_str(),
    ).concat("<select name=\"gate\">").concat(option_markup("public", gate).as_str()).concat(
        option_markup("authenticated", gate).as_str(),
    ).concat(option_markup("granted", gate).as_str()).concat(
        "</select><button type=\"submit\">Set</button></form></td></tr>",
    )
}

/// The rows of the table of apps.
pub open spec fn app_rows(apps: Seq<(Seq<char>, Seq<char>)>, token: Seq<char>) -> Seq<char>
    decreases apps.len(),
{
    if apps.len() == 0 {
        Seq::empty()
    } else {
        app_rows(apps.drop_last(), token) + app_row(apps.last(), token)
    }
}

/// A grant in the table of them: the app, and the account that has access.
pub open spec fn grant_row(grant: (Seq<char>, Seq<char>), token: Seq<char>) -> Seq<char> {
    "<tr><td>"@ + escaped(grant.0) + "</td><td>"@ + escaped(grant.1) + "</td><td>"@ + form_head(
        "/admin/access"@,
        token,
    ) + hidden("app"@, grant.0) + hidden("email"@, grant.1) + hidden("allow"@, "0"@)
        + "<button class=\"danger\" type=\"submit\">Revoke</button></form></td></tr>"@
}

/// A grant in the table of them.
fn grant_markup(app: &str, email: &str, token: &str) -> (r: String)
    ensures
        r@ == grant_row((app@, email@), token@),
{
    "<tr><td>".to_owned().concat(escape_html(app).as_str()).concat("</td><td>").concat(
        escape_html(email).as_str(),
    ).concat("</td><td>").concat(form_start("/admin/access", token).as_str()).concat(
        hidden_field("app", app).as_str(),
    ).concat(hidden_field("email", email).as_str()).concat(
        hidden_field("allow", "0").as_str(),
    ).concat("<button class=\"danger\" type=\"submit\">Revoke</button></form></td></tr>")
}

/// The rows of the table of grants.
pub open spec fn grant_rows(grants: Seq<(Seq<char>, Seq<char>)>, token: Seq<char>) -> Seq<char>
    decreases grants.len(),
{
    if grants.len() == 0 {
        Seq::empty()
    } else {
        grant_rows(grants.drop_last(), token) + grant_row(grants.last(), token)
    }
}

/// The part of the page on accounts.
pub open spec fn accounts_section(lines: Seq<AccountLine>, token: Seq<char>) -> Seq<char> {
    "<section><h2>Accounts</h2>"@ + if lines.len() == 0 {
        "<p class=\"muted\">No accounts yet.</p>"@
    } else {
        "<table><thead><tr><th>Email</th><th>Created</th><th>Admin</th><th>Status</th><th></th></tr></thead><tbody>"@
            + account_rows(lines, token) + "</tbody></table>"@
    } + form_head("/admin/users"@, token)
        + "<input name=\"email\" type=\"email\" placeholder=\"Email\" required><input name=\"password\" type=\"password\" placeholder=\"Password (8+)\" required><label><input type=\"checkbox\" name=\"admin\" value=\"1\"> admin</label><button type=\"submit\">Add account</button></form></section>"@
}

/// The part of the page on apps.
pub open spec fn apps_section(apps: Seq<(Seq<char>, Seq<char>)>, token: Seq<char>) -> Seq<char> {
    "<section><h2>Apps</h2>"@ + if apps.len() == 0 {
        "<p class=\"muted\">Nothing published yet.</p>"@
    } else {
        "<table><thead><tr><th>App</th><th>Gate</th><th></th></tr></thead><tbody>"@ + app_rows(
            apps,
            token,
        ) + "</tbody></table>"@
    } + "</section>"@
}

/// The part of the page on access.
pub open spec fn access_section(grants: Seq<(Seq<char>, Seq<char>)>, token: Seq<char>) -> Seq<
    char,
> {
    "<section><h2>Access</h2><p class=\"muted\">Only matters for apps gated <code>granted</code>.</p>"@
        + if grants.len() == 0 {
        "<p class=\"muted\">No grants.</p>"@
    } else {
        "<table><thead><tr><th>App</th><th>Account</th><th></th></tr></thead><tbody>"@ + grant_rows(
            grants,
            token,
        ) + "</tbody></table>"@
    } + form_head("/admin/access"@, token) + hidden("allow"@, "1"@)
        + "<input name=\"app\" placeholder=\"App\" required><input name=\"email\" type=\"email\" placeholder=\"Account email\" required><button type=\"submit\">Grant</button></form></section>"@
}

/// The page that an admin sees.
#[verifier::opaque]
pub open spec fn admin_page(
    email: Seq<char>,
    lines: Seq<AccountLine>,
    apps: Seq<(Seq<char>, Seq<char>)>,
    grants: Seq<(Seq<char>, Seq<char>)>,
    token: Seq<char>,
) -> Seq<char> {
    document(
        "Admin"@,
        "<h1>Admin</h1><p class=\"muted\">Signed in as "@ + escaped(email)
            + " · <a href=\"/auth/logout\">sign out</a></p>"@ + accounts_section(lines, token)
            + apps_section(apps, token) + access_section(grants, token),
        Seq::empty(),
    )
}

/// The part of the page on accounts.
fn render_accounts(lines: &Vec<AccountLine>, token: &str) -> (r: String)
    ensures
        r@ == accounts_section(lines@, token@),
{
    let mut rows = String::new();
    let mut i: usize = 0;
    proof {
        assert(rows@ =~= account_rows(lines@.take(0), token@));
    }
    while i < lines.len()
        invariant
            i <= lines.len(),
            rows@ == account_rows(lines@.take(i as int), token@),
        decreases lines.len() - i,
    {
        assert(lines@.take(i + 1).drop_last() =~= lines@.take(i as int));
        rows = rows.concat(account_markup(&lines[i], token).as_str());
        i += 1;
    }
    assert(lines@.take(lines.len() as int) =~= lines@);
    let listed: String = if lines.len() == 0 {
        "<p class=\"muted\">No accounts yet.</p>".to_owned()
    } else {
        "<table><thead><tr><th>Email</th><th>Created</th><th>Admin</th><th>Status</th><th></th></tr></thead><tbody>".to_owned().concat(
            rows.as_str(),
        ).concat("</tbody></table>")
    };
    "<section><h2>Accounts</h2>".to_owned().concat(listed.as_str()).concat(
        form_start("/admin/users", token).as_str(),
    ).concat(
        "<input name=\"email\" type=\"email\" placeholder=\"Email\" required><input name=\"password\" type=\"password\" placeholder=\"Password (8+)\" required><label><input type=\"checkbox\" name=\"admin\" value=\"1\"> admin</label><button type=\"submit\">Add account</button></form></section>",
    )
}

/// The part of the page on apps.
fn render_apps(apps: &Vec<(String, String)>, token: &str) -> (r: String)
    ensures
        r@ == apps_section(pairs(apps@), token@),
{
    let ghost all = pairs(apps@);
    let mut rows = String::new();
    let mut i: usize = 0;
    proof {
        assert(rows@ =~= app_rows(all.take(0), token@));
    }
    while i < apps.len()
        invariant
            i <= apps.len(),
            all == pairs(apps@),
            rows@ == app_rows(all.take(i as int), token@),
        decreases apps.len() - i,
    {
        assert(all.take(i + 1).drop_last() =~= all.take(i as int));
        assert(all.take(i + 1).last() == (apps@[i as int].0@, apps@[i as int].1@));
        rows = rows.concat(app_markup(apps[i].0.as_str(), apps[i].1.as_str(), token).as_str());
        i += 1;
    }
    assert(all.take(all.len() as int) =~= all);
    let listed: String = if apps.len() == 0 {
        "<p class=\"muted\">Nothing published yet.</p>".to_owned()
    } else {
        "<table><thead><tr><th>App</th><th>Gate</th><th></th></tr></thead><tbody>".to_owned().concat(
            rows.as_str(),
        ).concat("</tbody></table>")
    };
    "<section><h2>Apps</h2>".to_owned().concat(listed.as_str()).concat("</section>")
}

/// The part of the page on access.
fn render_access(grants: &Vec<(String, String)>, token: &str) -> (r: String)
    ensures
        r@ == access_section(pairs(grants@), token@),
{
    let ghost all = pairs(grants@);
    let mut rows = String::new();
    let mut i: usize = 0;
    proof {
        assert(rows@ =~= grant_rows(all.take(0), token@));
    }
    while i < grants.len()
        invariant
            i <= grants.len(),
            all == pairs(grants@),
            rows@ == grant_rows(all.take(i as int), token@),
        decreases grants.len() - i,
    {
        assert(all.take(i + 1).drop_last() =~= all.take(i as int));
        assert(all.take(i + 1).last() == (grants@[i as int].0@, grants@[i as int].1@));
        rows = rows.concat(
            grant_markup(grants[i].0.as_str(), grants[i].1.as_str(), token).as_str(),
        );
        i += 1;
    }
    assert(all.take(all.len() as int) =~= all);
    let listed: String = if grants.len() == 0 {
        "<p class=\"muted\">No grants.</p>".to_owned()
    } else {
        "<table><thead><tr><th>App</th><th>Account</th><th></th></tr></thead><tbody>".to_owned().concat(
            rows.as_str(),
        ).concat("</tbody></table>")
    };
    "<section><h2>Access</h2><p class=\"muted\">Only matters for apps gated <code>granted</code>.</p>".to_owned().concat(
        listed.as_str(),
    ).concat(form_start("/admin/access", token).as_str()).concat(
        hidden_field("allow", "1").as_str(),
    ).concat(
        "<input name=\"app\" placeholder=\"App\" required><input name=\"email\" type=\"email\" placeholder=\"Account email\" required><button type=\"submit\">Grant</button></form></section>",
    )
}

/// The page that an admin sees.
pub fn render(
    admin: &User,
    lines: &Vec<AccountLine>,
    apps: &Vec<(String, String)>,
    grants: &Vec<(String, String)>,
    token: &str,
) -> (r: String)
    ensures
        r@ == admin_page(admin.email@, lines@, pairs(apps@), pairs(grants@), token@),
{
    let body = "<h1>Admin</h1><p class=\"muted\">Signed in as ".to_owned().concat(
        escape_html(admin.email.as_str()).as_str(),
    ).concat(" · <a href=\"/auth/logout\">sign out</a></p>").concat(
        render_accounts(lines, token).as_str(),
    ).concat(render_apps(apps, token).as_str()).concat(render_access(grants, token).as_str());
    proof {
        reveal(admin_page);
    }
    full_page("Admin", body.as_str(), None)
}

/// What an admin is answered: the page, which no browser is to keep, since it
/// lists accounts.
pub open spec fn admin_answer(
    accounts: Accounts,
    account: Account,
    lines: Seq<AccountLine>,
    apps: Seq<(Seq<char>, Seq<char>)>,
    secret: Seq<char>,
) -> Answer {
    with_header(
        html(
            200,
            admin_page(
                account.email@,
                lines,
                apps,
                granted_to(accounts, accounts.grants@),
                form_mark(secret, account.id@),
            ),
        ),
        "cache-control"@,
        "no-store"@,
    )
}

/// Answers a request for the admin page. `apps` are the apps there are, with the
/// gate each one is behind.
pub fn page(
    accounts: &mut Accounts,
    cookies: Option<&str>,
    apps: &Vec<(String, String)>,
    secret: &str,
    now: u64,
) -> (r: Reply)
    ensures
        visited(*old(accounts), *final(accounts), now),
        match admin_refusal(site_visitor(*old(accounts), opt_str(cookies), now)) {
            Some(refusal) => r@ == refusal,
            None => exists|lines: Seq<AccountLine>|
                {
                    &&& lines.len() == old(accounts).users.len()
                    &&& forall|i: int|
                        0 <= i < lines.len() ==> lists(#[trigger] lines[i], old(accounts).users@[i])
                    &&& r@ == #[trigger] admin_answer(
                        *final(accounts),
                        who(site_visitor(*old(accounts), opt_str(cookies), now)),
                        lines,
                        pairs(apps@),
                        secret@,
                    )
                },
        },
{
    let admin = match require_admin(accounts, cookies, now) {
        Ok(admin) => admin,
        Err(reply) => {
            return reply;
        },
    };
    let lines = list_accounts(accounts);
    let grants = list_grants(accounts);
    let token = form_token(secret, &admin);
    let (name, value) = no_store();
    let r = Reply::html(200, render(&admin, &lines, apps, &grants, token.as_str())).with(
        name,
        value,
    );
    assert(r@ == admin_answer(
        *accounts,
        who(site_visitor(*old(accounts), opt_str(cookies), now)),
        lines@,
        pairs(apps@),
        secret@,
    ));
    r
}

/// What the form for a new account holds.
pub struct NewAccount {
    pub token: String,
    pub email: String,
    pub password: String,
    pub admin: Option<String>,
}

/// What came of making an account.
pub open spec fn account_added(
    before: Accounts,
    after: Accounts,
    form: NewAccount,
    id: Seq<char>,
    salt: Seq<u8>,
    now: u64,
    reply: Answer,
) -> bool {
    exists|r: Result<User, String>| #[trigger]
        signed_up(
            before,
            after,
            form.email@,
            form.password@,
            form.admin is Some,
            id,
            salt,
            now,
            r,
        ) && reply == outcome(
            match r {
                Ok(_) => None,
                Err(m) => Some(m@),
            },
        )
}

/// Makes an account with the id and the salt that were drawn for it.
pub fn add_account_with(
    accounts: &mut Accounts,
    cookies: Option<&str>,
    form: &NewAccount,
    secret: &str,
    id: String,
    salt: &Vec<u8>,
    now: u64,
) -> (r: Reply)
    requires
        salt.len() == 16,
    ensures
        old(accounts).wf() ==> final(accounts).wf(),
        exists|mid: Accounts| #[trigger]
            visited(*old(accounts), mid, now) && match form_refusal(
                site_visitor(*old(accounts), opt_str(cookies), now),
                secret@,
                form.token@,
            ) {
                Some(refusal) => r@ == refusal && *final(accounts) == mid,
                None => account_added(mid, *final(accounts), *form, id@, salt@, now, r@),
            },
{
    if let Err(reply) = require_form(accounts, cookies, secret, form.token.as_str(), now) {
        assert(visited(*old(accounts), *accounts, now));
        return reply;
    }
    let ghost mid = *accounts;
    assert(visited(*old(accounts), mid, now));
    let result = sign_up_with(
        accounts,
        form.email.as_str(),
        form.password.as_str(),
        form.admin.is_some(),
        id,
        salt,
        now,
    );
    match result {
        Ok(_) => Reply::elsewhere(303, "/admin"),
        Err(m) => Reply::plain(400, m),
    }
}

/// Makes an account for whoever an admin names. Of what comes out, only the id
/// and the salt are left to chance.
pub fn add_account(
    accounts: &mut Accounts,
    cookies: Option<&str>,
    form: &NewAccount,
    secret: &str,
    now: u64,
) -> (r: Reply)
    ensures
        old(accounts).wf() ==> final(accounts).wf(),
        exists|mid: Accounts, id: Seq<char>, salt: Seq<u8>|
            #![trigger visited(*old(accounts), mid, now), account_added(
                mid,
                *final(accounts),
                *form,
                id,
                salt,
                now,
                r@,
            )]
            visited(*old(accounts), mid, now) && match form_refusal(
                site_visitor(*old(accounts), opt_str(cookies), now),
                secret@,
                form.token@,
            ) {
                Some(refusal) => r@ == refusal && *final(accounts) == mid,
                None => is_drawn(id, 16) && salt.len() == 16 && account_added(
                    mid,
                    *final(accounts),
                    *form,
                    id,
                    salt,
                    now,
                    r@,
                ),
            },
{
    let id = random_token(16);
    let salt = random_bytes(16);
    let ghost drawn = id@;
    let r = add_account_with(accounts, cookies, form, secret, id, &salt, now);
    proof {
        let mid = choose|mid: Accounts| #[trigger]
            visited(*old(accounts), mid, now) && match form_refusal(
                site_visitor(*old(accounts), opt_str(cookies), now),
                secret@,
                form.token@,
            ) {
                Some(refusal) => r@ == refusal && *accounts == mid,
                None => account_added(mid, *accounts, *form, drawn, salt@, now, r@),
            };
        assert(visited(*old(accounts), mid, now));
        let b = account_added(mid, *accounts, *form, drawn, salt@, now, r@);
    }
    r
}

/// What the form to turn an account on or off holds.
pub struct ActiveChange {
    pub token: String,
    pub email: String,
    pub active: String,
}

/// What came of turning an account on or off.
pub open spec fn activity_changed(
    before: Accounts,
    after: Accounts,
    own: Seq<char>,
    form: ActiveChange,
    reply: Answer,
) -> bool {
    let active = form.active@ == "1"@;
    let email = normal(form.email@);
    if lowered(trimmed(form.email@)) == lowered(own) && !active {
        after == before && reply == plain(400, "you cannot disable your own account"@)
    } else if before.by_email(email) is Some {
        activity_set(before, after, first_from(before.users@, has_email(email), 0), active)
            && reply == outcome(None)
    } else {
        after == before && reply == outcome(Some(no_account(form.email@)))
    }
}

/// Turns an account on or off. Disabling yourself would lock the last admin out
/// of this page, so that is refused.
pub fn change_active(
    accounts: &mut Accounts,
    cookies: Option<&str>,
    form: &ActiveChange,
    secret: &str,
    now: u64,
) -> (r: Reply)
    ensures
        old(accounts).wf() ==> final(accounts).wf(),
        exists|mid: Accounts| #[trigger]
            visited(*old(accounts), mid, now) && match form_refusal(
                site_visitor(*old(accounts), opt_str(cookies), now),
                secret@,
                form.token@,
            ) {
                Some(refusal) => r@ == refusal && *final(accounts) == mid,
                None => activity_changed(
                    mid,
                    *final(accounts),
                    who(site_visitor(*old(accounts), opt_str(cookies), now)).email@,
                    *form,
                    r@,
                ),
            },
{
    let admin = match require_form(accounts, cookies, secret, form.token.as_str(), now) {
        Ok(admin) => admin,
        Err(reply) => {
            assert(visited(*old(accounts), *accounts, now));
            return reply;
        },
    };
    let ghost mid = *accounts;
    assert(visited(*old(accounts), mid, now));
    let active = same(form.active.as_str(), "1");
    if same_ignoring_case(trim(form.email.as_str()).as_str(), admin.email.as_str()) && !active {
        return Reply::says(400, "you cannot disable your own account");
    }
    match set_active(accounts, form.email.as_str(), active) {
        Ok(_) => Reply::elsewhere(303, "/admin"),
        Err(m) => Reply::plain(400, m),
    }
}

/// What the form to give or take access holds.
pub struct AccessChange {
    pub token: String,
    pub app: String,
    pub email: String,
    pub allow: String,
}

/// What came of giving or taking access.
pub open spec fn access_changed(
    before: Accounts,
    after: Accounts,
    form: AccessChange,
    reply: Answer,
) -> bool {
    let account = before.by_email(normal(form.email@));
    if form.allow@ != "1"@ {
        only_grants_change(before, after) && after.grants@ == before.grants@.filter(
            |g: Grant| outlives(g, account, form.app@),
        ) && reply == outcome(None)
    } else if !is_slug(form.app@) {
        after == before && reply == outcome(Some("invalid app name"@))
    } else {
        match account {
            Some(a) => grant_made(before, after, a.id@, form.app@, "viewer"@) && reply == outcome(
                None,
            ),
            None => after == before && reply == outcome(Some(no_account(form.email@))),
        }
    }
}

/// Gives an account access to an app, as a viewer, or takes it away.
pub fn change_access(
    accounts: &mut Accounts,
    cookies: Option<&str>,
    form: &AccessChange,
    secret: &str,
    now: u64,
) -> (r: Reply)
    ensures
        old(accounts).wf() ==> final(accounts).wf(),
        exists|mid: Accounts| #[trigger]
            visited(*old(accounts), mid, now) && match form_refusal(
                site_visitor(*old(accounts), opt_str(cookies), now),
                secret@,
                form.token@,
            ) {
                Some(refusal) => r@ == refusal && *final(accounts) == mid,
                None => access_changed(mid, *final(accounts), *form, r@),
            },
{
    if let Err(reply) = require_form(accounts, cookies, secret, form.token.as_str(), now) {
        assert(visited(*old(accounts), *accounts, now));
        return reply;
    }
    let ghost mid = *accounts;
    assert(visited(*old(accounts), mid, now));
    if same(form.allow.as_str(), "1") {
        match grant(accounts, form.email.as_str(), form.app.as_str(), "viewer") {
            Ok(_) => Reply::elsewhere(303, "/admin"),
            Err(m) => Reply::plain(400, m),
        }
    } else {
        revoke(accounts, form.email.as_str(), form.app.as_str());
        Reply::elsewhere(303, "/admin")
    }
}

/// What the form to choose a gate holds.
pub struct GateChange {
    pub token: String,
    pub app: String,
    pub gate: String,
}

/// Why a gate is not set.
pub open spec fn gate_refusal(form: GateChange) -> Option<Answer> {
    if !is_slug(form.app@) {
        Some(plain(400, "invalid app name"@))
    } else if !is_gate(form.gate@) {
        Some(plain(400, "unknown gate"@))
    } else {
        None
    }
}

/// Chooses what an app asks for: what is to be written of it, or the answer where
/// nothing is.
pub fn change_gate(
    accounts: &mut Accounts,
    cookies: Option<&str>,
    form: &GateChange,
    meta: PageMeta,
    secret: &str,
    now: u64,
) -> (r: Result<PageMeta, Reply>)
    ensures
        visited(*old(accounts), *final(accounts), now),
        match form_refusal(
            site_visitor(*old(accounts), opt_str(cookies), now),
            secret@,
            form.token@,
        ) {
            Some(refusal) => r matches Err(reply) && reply@ == refusal,
            None => match gate_refusal(*form) {
                Some(refusal) => r matches Err(reply) && reply@ == refusal,
                None => r matches Ok(written) && written.gate@ == form.gate@ && written == (
                PageMeta { gate: written.gate, ..meta }),
            },
        },
{
    if let Err(reply) = require_form(accounts, cookies, secret, form.token.as_str(), now) {
        return Err(reply);
    }
    if !valid_slug(form.app.as_str()) {
        return Err(Reply::says(400, "invalid app name"));
    }
    if !valid_gate(form.gate.as_str()) {
        return Err(Reply::says(400, "unknown gate"));
    }
    Ok(PageMeta { gate: form.gate.clone(), ..meta })
}

/// What the sender is answered by whether the choice could be written.
pub fn gate_changed(written: bool) -> (r: Reply)
    ensures
        r@ == if written {
            elsewhere(303, "/admin"@)
        } else {
            plain(500, "could not set gate"@)
        },
{
    if written {
        Reply::elsewhere(303, "/admin")
    } else {
        Reply::says(500, "could not set gate")
    }
}

/// Sent on every admin answer so the browser will not cache a page listing
/// accounts.
pub fn no_store() -> (r: (&'static str, &'static str))
    ensures
        r.0@ == "cache-control"@,
        r.1@ == "no-store"@,
{
    ("cache-control", "no-store")
}

/// The session decides: whoever is no admin gets nothing done, even with the
/// token of a real admin's form.
pub proof fn only_admins_act(
    visitor: Option<(Session, Account)>,
    secret: Seq<char>,
    presented: Seq<char>,
)
    requires
        !(visitor matches Some((_, account)) && account.is_admin),
    ensures
        form_refusal(visitor, secret, presented) == admin_refusal(visitor),
        admin_refusal(visitor) is Some,
{
}

/// An admin cannot lock themself out: their own account stays as it is, also where
/// its email is given with space around it or with other ASCII capitals.
pub proof fn no_admin_disables_themself(
    before: Accounts,
    after: Accounts,
    own: Seq<char>,
    form: ActiveChange,
    reply: Answer,
)
    requires
        activity_changed(before, after, own, form, reply),
        lowered(trimmed(form.email@)) == lowered(own),
        form.active@ != "1"@,
    ensures
        after == before,
        reply.status == 400,
{
}

} // verus!
