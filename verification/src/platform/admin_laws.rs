//! What holds of the pages that people fill in: what is shown of an account, an app or a
//! grant, and what the form beside it sends.
use crate::accounts::web::{login_form, NextPage};
use crate::content::slug::{escape_html, escaped};
use crate::platform::admin::{
    access_section, account_row, account_rows, accounts_section, app_row, app_rows, apps_section,
    form_head, gate_option, grant_row, grant_rows, hidden, render, AccountLine,
};
use crate::text::pairs;
use vstd::prelude::*;

verus! {

/// Whether a text stands in another.
pub open spec fn within(s: Seq<char>, t: Seq<char>) -> bool {
    exists|before: Seq<char>, after: Seq<char>| t == #[trigger] (before + s + after)
}

/// A text stands in itself.
proof fn lemma_itself(s: Seq<char>)
    ensures
        within(s, s),
{
    let none = Seq::<char>::empty();
    assert(s =~= none + s + none);
}

/// What stands in a text stands in whatever begins with it.
proof fn lemma_first(s: Seq<char>, a: Seq<char>, b: Seq<char>)
    requires
        within(s, a),
    ensures
        within(s, a + b),
{
    let (x, y) = choose|x: Seq<char>, y: Seq<char>| a == #[trigger] (x + s + y);
    assert(a + b =~= x + s + (y + b));
}

/// What stands in a text stands in whatever ends with it.
proof fn lemma_last(s: Seq<char>, a: Seq<char>, b: Seq<char>)
    requires
        within(s, b),
    ensures
        within(s, a + b),
{
    let (x, y) = choose|x: Seq<char>, y: Seq<char>| b == #[trigger] (x + s + y);
    assert(a + b =~= (a + x) + s + y);
}

/// What stands in a text stands wherever that text does.
proof fn lemma_through(s: Seq<char>, t: Seq<char>, u: Seq<char>)
    requires
        within(s, t),
        within(t, u),
    ensures
        within(s, u),
{
    let (a, b) = choose|a: Seq<char>, b: Seq<char>| t == #[trigger] (a + s + b);
    let (c, d) = choose|c: Seq<char>, d: Seq<char>| u == #[trigger] (c + t + d);
    assert(u =~= (c + a) + s + (b + d));
}

/// A middle part stands in the whole.
proof fn lemma_middle(a: Seq<char>, s: Seq<char>, b: Seq<char>)
    ensures
        within(s, a + s + b),
{
}

/// The row of an account is among the rows.
proof fn lemma_account(lines: Seq<AccountLine>, token: Seq<char>, i: int)
    requires
        0 <= i < lines.len(),
    ensures
        within(account_row(lines[i], token), account_rows(lines, token)),
    decreases lines.len(),
{
    let front = account_rows(lines.drop_last(), token);
    let row = account_row(lines.last(), token);
    if i < lines.len() - 1 {
        lemma_account(lines.drop_last(), token, i);
        lemma_first(account_row(lines[i], token), front, row);
    } else {
        lemma_itself(row);
        lemma_last(row, front, row);
    }
}

/// The row of an app is among the rows.
proof fn lemma_app(apps: Seq<(Seq<char>, Seq<char>)>, token: Seq<char>, i: int)
    requires
        0 <= i < apps.len(),
    ensures
        within(app_row(apps[i], token), app_rows(apps, token)),
    decreases apps.len(),
{
    let front = app_rows(apps.drop_last(), token);
    let row = app_row(apps.last(), token);
    if i < apps.len() - 1 {
        lemma_app(apps.drop_last(), token, i);
        lemma_first(app_row(apps[i], token), front, row);
    } else {
        lemma_itself(row);
        lemma_last(row, front, row);
    }
}

/// The row of a grant is among the rows.
proof fn lemma_grant(grants: Seq<(Seq<char>, Seq<char>)>, token: Seq<char>, i: int)
    requires
        0 <= i < grants.len(),
    ensures
        within(grant_row(grants[i], token), grant_rows(grants, token)),
    decreases grants.len(),
{
    let front = grant_rows(grants.drop_last(), token);
    let row = grant_row(grants.last(), token);
    if i < grants.len() - 1 {
        lemma_grant(grants.drop_last(), token, i);
        lemma_first(grant_row(grants[i], token), front, row);
    } else {
        lemma_itself(row);
        lemma_last(row, front, row);
    }
}

/// The sections of the admin page stand in it.
proof fn lemma_sections(
    email: Seq<char>,
    lines: Seq<AccountLine>,
    apps: Seq<(Seq<char>, Seq<char>)>,
    grants: Seq<(Seq<char>, Seq<char>)>,
    token: Seq<char>,
    r: Seq<char>,
)
    requires
        r == crate::platform::admin::admin_page(email, lines, apps, grants, token),
    ensures
        within(accounts_section(lines, token), r),
        within(apps_section(apps, token), r),
        within(access_section(grants, token), r),
{
    let a = accounts_section(lines, token);
    let b = apps_section(apps, token);
    let c = access_section(grants, token);
    let lead = "<h1>Admin</h1><p class=\"muted\">Signed in as "@;
    let head = lead + escaped(email)
        + " · <a href=\"/auth/logout\">sign out</a></p>"@;
    let body = head + a + b + c;
    let none = Seq::<char>::empty();
    reveal(crate::platform::admin::admin_page);
    lemma_middle(head, a, b);
    lemma_first(a, head + a + b, c);
    lemma_itself(b);
    lemma_last(b, head + a, b);
    lemma_first(b, head + a + b, c);
    lemma_itself(c);
    lemma_last(c, head + a + b, c);
    let front = crate::ui::HEAD@ + escaped("Admin"@) + "</title><style>"@ + crate::ui::STYLE@
        + "</style></head><body><div class=\"container\">"@;
    lemma_middle(front, body, "</div>"@);
    lemma_first(body, front + body + "</div>"@, none);
    lemma_first(body, front + body + "</div>"@ + none, "</body></html>"@);
    lemma_through(a, body, r);
    lemma_through(b, body, r);
    lemma_through(c, body, r);
}

/// On the admin page an account that is active can be disabled, and one that is disabled
/// can be enabled: the form beside it names the account and says which.
pub proof fn an_account_can_be_turned_over(
    admin: crate::accounts::users::User,
    lines: Vec<AccountLine>,
    apps: Vec<(String, String)>,
    grants: Vec<(String, String)>,
    token: &str,
    i: int,
    email: &str,
    safe: String,
    r: String,
)
    requires
        call_ensures(render, (&admin, &lines, &apps, &grants, token), r),
        0 <= i < lines.len(),
        email@ == lines@[i].email@,
        call_ensures(escape_html, (email,), safe),
    ensures
        lines@[i].is_active ==> within(
            "<input type=\"hidden\" name=\""@ + "email"@ + "\" value=\""@ + safe@ + "\">"@
                + ("<input type=\"hidden\" name=\""@ + "active"@ + "\" value=\""@ + escaped("0"@)
                + "\">"@) + "<button class=\"danger\" type=\"submit\">Disable</button>"@,
            r@,
        ),
        !lines@[i].is_active ==> within(
            "<input type=\"hidden\" name=\""@ + "email"@ + "\" value=\""@ + safe@ + "\">"@
                + ("<input type=\"hidden\" name=\""@ + "active"@ + "\" value=\""@ + escaped("1"@)
                + "\">"@) + "<button type=\"submit\">Enable</button>"@,
            r@,
        ),
{
    let line = lines@[i];
    let rows = account_rows(lines@, token@);
    let row = account_row(line, token@);
    lemma_sections(admin.email@, lines@, pairs(apps@), pairs(grants@), token@, r@);
    lemma_account(lines@, token@, i);
    let table = "<table><thead><tr><th>Email</th><th>Created</th><th>Admin</th><th>Status</th><th></th></tr></thead><tbody>"@;
    let form = form_head("/admin/users"@, token@);
    let add = "<input name=\"email\" type=\"email\" placeholder=\"Email\" required><input name=\"password\" type=\"password\" placeholder=\"Password (8+)\" required><label><input type=\"checkbox\" name=\"admin\" value=\"1\"> admin</label><button type=\"submit\">Add account</button></form></section>"@;
    lemma_middle(table, rows, "</tbody></table>"@);
    let whole = table + rows + "</tbody></table>"@;
    lemma_last(rows, "<section><h2>Accounts</h2>"@, whole);
    lemma_first(rows, "<section><h2>Accounts</h2>"@ + whole, form);
    lemma_first(rows, "<section><h2>Accounts</h2>"@ + whole + form, add);
    lemma_through(row, rows, accounts_section(lines@, token@));
    lemma_through(row, accounts_section(lines@, token@), r@);
    let first = hidden("email"@, line.email@);
    let second = hidden(
        "active"@,
        if line.is_active {
            "0"@
        } else {
            "1"@
        },
    );
    let button = if line.is_active {
        "<button class=\"danger\" type=\"submit\">Disable</button>"@
    } else {
        "<button type=\"submit\">Enable</button>"@
    };
    let shown = "<tr><td>"@ + escaped(line.email@) + "</td><td class=\"muted\">"@ + escaped(
        line.created@,
    ) + "</td><td>"@ + if line.is_admin {
        "yes"@
    } else {
        ""@
    } + "</td><td>"@ + if line.is_active {
        "active"@
    } else {
        "disabled"@
    } + "</td><td>"@ + form_head("/admin/active"@, token@);
    let asked = first + second + button;
    assert(row == shown + first + second + button + "</form></td></tr>"@);
    assert(shown + first + second + button =~= shown + asked);
    lemma_itself(asked);
    lemma_last(asked, shown, asked);
    lemma_first(asked, shown + asked, "</form></td></tr>"@);
    lemma_through(asked, row, r@);
}

/// Four texts, put together from the back.
proof fn lemma_four(a: Seq<char>, b: Seq<char>, c: Seq<char>, d: Seq<char>, e: Seq<char>)
    ensures
        a + b + c + d + e == a + (b + c + d + e),
{
    assert(a + b + c + d + e =~= a + (b + c + d + e));
}

/// A gate to choose, behind what stands before it.
proof fn lemma_option(select: Seq<char>, a: Seq<char>, b: Seq<char>, c: Seq<char>, d: Seq<char>)
    ensures
        select + (a + b + c + b + d) == select + a + b + c + b + d,
{
    assert(select + (a + b + c + b + d) =~= select + a + b + c + b + d);
}

/// A choice of gates stands in the row of its app.
proof fn lemma_choice(
    front: Seq<char>,
    select: Seq<char>,
    option: Seq<char>,
    a: Seq<char>,
    b: Seq<char>,
    end: Seq<char>,
)
    ensures
        within(select + option, front + select + option + a + b + end),
{
    assert(front + select + option =~= front + (select + option));
    lemma_itself(select + option);
    lemma_last(select + option, front, select + option);
    lemma_first(select + option, front + select + option, a);
    lemma_first(select + option, front + select + option + a, b);
    lemma_first(select + option, front + select + option + a + b, end);
}

/// The row of an app stands on the page.
proof fn lemma_app_shown(
    email: Seq<char>,
    lines: Seq<AccountLine>,
    apps: Seq<(Seq<char>, Seq<char>)>,
    grants: Seq<(Seq<char>, Seq<char>)>,
    token: Seq<char>,
    i: int,
    r: Seq<char>,
)
    requires
        r == crate::platform::admin::admin_page(email, lines, apps, grants, token),
        0 <= i < apps.len(),
    ensures
        within(app_row(apps[i], token), r),
{
    let rows = app_rows(apps, token);
    let row = app_row(apps[i], token);
    lemma_sections(email, lines, apps, grants, token, r);
    lemma_app(apps, token, i);
    let table = "<table><thead><tr><th>App</th><th>Gate</th><th></th></tr></thead><tbody>"@;
    lemma_middle(table, rows, "</tbody></table>"@);
    let whole = table + rows + "</tbody></table>"@;
    lemma_last(rows, "<section><h2>Apps</h2>"@, whole);
    lemma_first(rows, "<section><h2>Apps</h2>"@ + whole, "</section>"@);
    lemma_through(row, rows, apps_section(apps, token));
    lemma_through(row, apps_section(apps, token), r);
}

/// On the admin page what an app asks for is what is chosen in its form, and nothing else
/// is.
pub proof fn a_gate_is_shown_as_it_is(
    admin: crate::accounts::users::User,
    lines: Vec<AccountLine>,
    apps: Vec<(String, String)>,
    grants: Vec<(String, String)>,
    token: &str,
    i: int,
    r: String,
)
    requires
        call_ensures(render, (&admin, &lines, &apps, &grants, token), r),
        0 <= i < apps.len(),
    ensures
        apps@[i].1@ == "public"@ ==> within(
            "<select name=\"gate\">"@ + "<option value=\""@ + "public"@ + "\" selected>"@
                + "public"@ + "</option>"@,
            r@,
        ),
        apps@[i].1@ != "public"@ ==> within(
            "<select name=\"gate\">"@ + "<option value=\""@ + "public"@ + "\">"@ + "public"@
                + "</option>"@,
            r@,
        ),
{
    let all = pairs(apps@);
    assert(all.len() == apps.len());
    let app = all[i];
    assert(app == (apps@[i].0@, apps@[i].1@));
    let row = app_row(app, token@);
    lemma_app_shown(admin.email@, lines@, all, pairs(grants@), token@, i, r@);
    let front = "<tr><td><a href=\"/p/"@ + escaped(app.0) + "/\">"@ + escaped(app.0)
        + "</a></td><td><code>"@ + escaped(app.1) + "</code></td><td>"@ + form_head(
        "/admin/gate"@,
        token@,
    ) + hidden("app"@, app.0);
    let select = "<select name=\"gate\">"@;
    let option = gate_option("public"@, app.1);
    let a = gate_option("authenticated"@, app.1);
    let b = gate_option("granted"@, app.1);
    let end = "</select><button type=\"submit\">Set</button></form></td></tr>"@;
    assert(row == front + select + option + a + b + end);
    lemma_choice(front, select, option, a, b, end);
    lemma_through(select + option, row, r@);
    lemma_option(
        select,
        "<option value=\""@,
        "public"@,
        if app.1 == "public"@ {
            "\" selected>"@
        } else {
            "\">"@
        },
        "</option>"@,
    );
}

/// The row of a grant stands on the page.
proof fn lemma_grant_shown(
    email: Seq<char>,
    lines: Seq<AccountLine>,
    apps: Seq<(Seq<char>, Seq<char>)>,
    grants: Seq<(Seq<char>, Seq<char>)>,
    token: Seq<char>,
    i: int,
    r: Seq<char>,
)
    requires
        r == crate::platform::admin::admin_page(email, lines, apps, grants, token),
        0 <= i < grants.len(),
    ensures
        within(grant_row(grants[i], token), r),
{
    let rows = grant_rows(grants, token);
    let row = grant_row(grants[i], token);
    lemma_sections(email, lines, apps, grants, token, r);
    lemma_grant(grants, token, i);
    let table = "<table><thead><tr><th>App</th><th>Account</th><th></th></tr></thead><tbody>"@;
    lemma_middle(table, rows, "</tbody></table>"@);
    let whole = table + rows + "</tbody></table>"@;
    let intro = "<section><h2>Access</h2><p class=\"muted\">Only matters for apps gated <code>granted</code>.</p>"@;
    lemma_last(rows, intro, whole);
    let form = form_head("/admin/access"@, token);
    let allow = hidden("allow"@, "1"@);
    let end = "<input name=\"app\" placeholder=\"App\" required><input name=\"email\" type=\"email\" placeholder=\"Account email\" required><button type=\"submit\">Grant</button></form></section>"@;
    lemma_first(rows, intro + whole, form);
    lemma_first(rows, intro + whole + form, allow);
    lemma_first(rows, intro + whole + form + allow, end);
    lemma_through(row, rows, access_section(grants, token));
    lemma_through(row, access_section(grants, token), r);
}

/// On the admin page each grant can be taken back, by a form that names the app and the
/// account.
pub proof fn a_grant_can_be_taken_back(
    admin: crate::accounts::users::User,
    lines: Vec<AccountLine>,
    apps: Vec<(String, String)>,
    grants: Vec<(String, String)>,
    token: &str,
    i: int,
    r: String,
)
    requires
        call_ensures(render, (&admin, &lines, &apps, &grants, token), r),
        0 <= i < grants.len(),
    ensures
        within(
            "<input type=\"hidden\" name=\""@ + "app"@ + "\" value=\""@ + escaped(grants@[i].0@)
                + "\">"@ + ("<input type=\"hidden\" name=\""@ + "email"@ + "\" value=\""@ + escaped(
                grants@[i].1@,
            ) + "\">"@) + ("<input type=\"hidden\" name=\""@ + "allow"@ + "\" value=\""@ + escaped(
                "0"@,
            ) + "\">"@) + "<button class=\"danger\" type=\"submit\">Revoke</button></form></td></tr>"@,
            r@,
        ),
{
    let given = pairs(grants@);
    assert(given.len() == grants.len());
    let grant = given[i];
    assert(grant == (grants@[i].0@, grants@[i].1@));
    let row = grant_row(grant, token@);
    lemma_grant_shown(admin.email@, lines@, pairs(apps@), given, token@, i, r@);
    let front = "<tr><td>"@ + escaped(grant.0) + "</td><td>"@ + escaped(grant.1) + "</td><td>"@
        + form_head("/admin/access"@, token@);
    let one = hidden("app"@, grant.0);
    let two = hidden("email"@, grant.1);
    let three = hidden("allow"@, "0"@);
    let button = "<button class=\"danger\" type=\"submit\">Revoke</button></form></td></tr>"@;
    let asked = one + two + three + button;
    assert(row == front + one + two + three + button);
    lemma_four(front, one, two, three, button);
    lemma_itself(asked);
    lemma_last(asked, front, asked);
    lemma_through(asked, row, r@);
}

/// The form to sign in on keeps the page that was asked for, if it is one of this site,
/// and sends it with the email and the password.
pub proof fn the_form_keeps_the_next_page(params: NextPage, asked: &str, safe: String, r: crate::reply::Reply)
    requires
        params.next matches Some(n) && n@ == asked@,
        "/"@.is_prefix_of(asked@) && !"//"@.is_prefix_of(asked@),
        call_ensures(escape_html, (asked,), safe),
        call_ensures(login_form, (&params,), r),
    ensures
        r.status == 200,
        within(safe@, r.body@),
{
    let front = crate::ui::HEAD@ + escaped("Sign in"@) + "</title><style>"@ + crate::ui::STYLE@
        + "</style><style>"@ + crate::ui::CENTRED@
        + "</style></head><body><div class=\"container narrow\">"@;
    let a = "<form class=\"column\" method=\"post\" action=\"/auth/login\"><h1>Sign in</h1><input type=\"hidden\" name=\"next\" value=\""@;
    let b = "\"><input name=\"email\" type=\"email\" placeholder=\"Email\" autocomplete=\"username\" required autofocus><input name=\"password\" type=\"password\" placeholder=\"Password\" autocomplete=\"current-password\" required><button type=\"submit\">Sign in</button></form>"@;
    let body = a + safe@ + b;
    lemma_middle(a, safe@, b);
    lemma_middle(front, body, "</div></body></html>"@);
    lemma_through(safe@, body, front + body + "</div></body></html>"@);
}

} // verus!
