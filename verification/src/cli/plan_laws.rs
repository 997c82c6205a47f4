//! What holds of what a command asks of the server: each law is about what a function
//! is handed and what it gives back.
use crate::cli::plan::{plan, server, Call, Command, Defaults, Server, Show};
use crate::cli::scalar::{scalar_text, Scalar};
use crate::encode::json_string;
use crate::runtime::db::list_json;
use crate::text::texts;
use vstd::prelude::*;

verus! {

/// A member of a JSON object behind another one.
pub open spec fn member(name: Seq<char>, value: Seq<char>) -> Seq<char> {
    ",\""@ + name + "\":"@ + json_string(value)
}

/// Whether a call is of a tool with arguments, its answer shown as it is.
pub open spec fn is_call(r: Result<Call, String>, tool: Seq<char>, arguments: Seq<char>) -> bool {
    r matches Ok(c) && c.tool@ == tool && c.arguments@ == arguments && c.show == Show::Text
}

/// A page that is hidden is hidden, and one that is restored is not; a gate is set on
/// the app, or on the part of it that is named.
pub proof fn what_changes_who_sees_a_page(
    app: String,
    gate: String,
    path: Option<String>,
    defaults: Defaults,
    hide: Result<Call, String>,
    unhide: Result<Call, String>,
    set: Result<Call, String>,
)
    requires
        call_ensures(plan, (&Command::Hide { slug: app }, &defaults), hide),
        call_ensures(plan, (&Command::Unhide { slug: app }, &defaults), unhide),
        call_ensures(plan, (&Command::Gate { app, gate, path }, &defaults), set),
    ensures
        is_call(hide, "set_visibility"@, "{\"hidden\":true"@ + member("slug"@, app@) + "}"@),
        is_call(unhide, "set_visibility"@, "{\"hidden\":false"@ + member("slug"@, app@) + "}"@),
        path is None ==> is_call(
            set,
            "set_visibility"@,
            "{\"gate\":"@ + json_string(gate@) + member("slug"@, app@) + "}"@,
        ),
        path matches Some(p) ==> is_call(
            set,
            "set_visibility"@,
            "{\"gate\":"@ + json_string(gate@) + member("path"@, p@) + member("slug"@, app@) + "}"@,
        ),
{
    reveal_strlit("");
    let head = "{\"gate\":"@ + json_string(gate@);
    assert(head + ""@ =~= head);
}

/// An account that is disabled is not active and one that is enabled is; a grant
/// allows an app and a revocation does not.
pub proof fn what_changes_who_may_do_what(
    app: String,
    email: String,
    role: Option<String>,
    defaults: Defaults,
    disable: Result<Call, String>,
    enable: Result<Call, String>,
    grant: Result<Call, String>,
    revoke: Result<Call, String>,
)
    requires
        call_ensures(plan, (&Command::UserDisable { email }, &defaults), disable),
        call_ensures(plan, (&Command::UserEnable { email }, &defaults), enable),
        call_ensures(plan, (&Command::Grant { app, email, role }, &defaults), grant),
        call_ensures(plan, (&Command::Revoke { app, email }, &defaults), revoke),
    ensures
        is_call(disable, "set_user_active"@, "{\"active\":false"@ + member("email"@, email@) + "}"@),
        is_call(enable, "set_user_active"@, "{\"active\":true"@ + member("email"@, email@) + "}"@),
        is_call(
            revoke,
            "set_access"@,
            "{\"allow\":false"@ + member("app"@, app@) + member("email"@, email@) + "}"@,
        ),
        role is None ==> is_call(
            grant,
            "set_access"@,
            "{\"allow\":true"@ + member("app"@, app@) + member("email"@, email@) + "}"@,
        ),
        role matches Some(x) ==> is_call(
            grant,
            "set_access"@,
            "{\"allow\":true"@ + member("app"@, app@) + member("email"@, email@) + member(
                "role"@,
                x@,
            ) + "}"@,
        ),
{
    reveal_strlit("");
    let head = "{\"allow\":true"@ + member("app"@, app@) + member("email"@, email@);
    assert(head + ""@ =~= head);
}

/// An account is made with the password that is given, else with the environment's,
/// else with none; it is an admin's only where that is asked for.
pub proof fn how_an_account_is_asked_for(
    email: String,
    password: Option<String>,
    admin: bool,
    defaults: Defaults,
    r: Result<Call, String>,
)
    requires
        call_ensures(plan, (&Command::UserAdd { email, password, admin }, &defaults), r),
    ensures
        r matches Ok(c) && c.tool@ == "create_user"@,
        admin ==> "{\"admin\":true"@.is_prefix_of(r->Ok_0.arguments@),
        !admin ==> "{\"admin\":false"@.is_prefix_of(r->Ok_0.arguments@),
        password matches Some(p) ==> (member("email"@, email@) + member("password"@, p@)
            + "}"@).is_suffix_of(r->Ok_0.arguments@),
        password is None && defaults.password is Some ==> (member("email"@, email@) + member(
            "password"@,
            defaults.password->0@,
        ) + "}"@).is_suffix_of(r->Ok_0.arguments@),
        password is None && defaults.password is None ==> (member("email"@, email@)
            + "}"@).is_suffix_of(r->Ok_0.arguments@),
{
    reveal_strlit("");
    let whole = r->Ok_0.arguments@;
    let head = if admin {
        "{\"admin\":true"@
    } else {
        "{\"admin\":false"@
    };
    assert(whole.subrange(0, head.len() as int) =~= head);
    let secret = match crate::cli::plan::flag_or(password, defaults.password) {
        Some(p) => member("password"@, p),
        None => ""@,
    };
    let tail = member("email"@, email@) + secret + "}"@;
    assert(whole.subrange(whole.len() - tail.len(), whole.len() as int) =~= tail);
    if secret.len() == 0 {
        assert(tail =~= member("email"@, email@) + "}"@);
    }
}

/// A job is run, taken away, listed or set; setting one takes a schedule and a path.
pub proof fn what_is_asked_of_jobs(
    app: String,
    name: String,
    schedule: Option<String>,
    path: Option<String>,
    now: bool,
    remove: bool,
    defaults: Defaults,
    list: Result<Call, String>,
    r: Result<Call, String>,
)
    requires
        call_ensures(
            plan,
            (&Command::Job { app, name: None, schedule, path, now, remove }, &defaults),
            list,
        ),
        call_ensures(
            plan,
            (&Command::Job { app, name: Some(name), schedule, path, now, remove }, &defaults),
            r,
        ),
    ensures
        is_call(list, "app_jobs"@, "{\"app\":"@ + json_string(app@) + "}"@),
        now ==> is_call(
            r,
            "app_jobs"@,
            "{\"app\":"@ + json_string(app@) + member("name"@, name@) + ",\"run_now\":true}"@,
        ),
        !now && remove ==> is_call(
            r,
            "app_jobs"@,
            "{\"app\":"@ + json_string(app@) + member("name"@, name@) + "}"@,
        ),
        !now && !remove && schedule is Some && path is Some ==> is_call(
            r,
            "app_jobs"@,
            "{\"app\":"@ + json_string(app@) + member("name"@, name@) + member("path"@, path->0@)
                + member("schedule"@, schedule->0@) + "}"@,
        ),
        !now && !remove && (schedule is None || path is None) ==> r is Err,
{
}

/// A setting is set to the value that is given, else to the environment's; without
/// either it is not. A link is asked for before anything else.
pub proof fn what_is_asked_of_settings(
    app: String,
    name: String,
    value: Option<String>,
    remove: bool,
    defaults: Defaults,
    link: Result<Call, String>,
    list: Result<Call, String>,
    r: Result<Call, String>,
)
    requires
        call_ensures(
            plan,
            (&Command::Secret { app, name: Some(name), value, remove, link: true }, &defaults),
            link,
        ),
        call_ensures(
            plan,
            (&Command::Secret { app, name: None, value, remove, link: false }, &defaults),
            list,
        ),
        call_ensures(
            plan,
            (&Command::Secret { app, name: Some(name), value, remove, link: false }, &defaults),
            r,
        ),
    ensures
        is_call(link, "app_settings"@, "{\"app\":"@ + json_string(app@) + ",\"link\":true}"@),
        is_call(list, "app_settings"@, "{\"app\":"@ + json_string(app@) + "}"@),
        remove ==> is_call(
            r,
            "app_settings"@,
            "{\"app\":"@ + json_string(app@) + member("name"@, name@) + "}"@,
        ),
        !remove && value is Some ==> is_call(
            r,
            "app_settings"@,
            "{\"app\":"@ + json_string(app@) + member("name"@, name@) + member("value"@, value->0@)
                + "}"@,
        ),
        !remove && value is None && defaults.secret is Some ==> is_call(
            r,
            "app_settings"@,
            "{\"app\":"@ + json_string(app@) + member("name"@, name@) + member(
                "value"@,
                defaults.secret->0@,
            ) + "}"@,
        ),
        !remove && value is None && defaults.secret is None ==> r is Err,
{
}

/// Notes are written where they are given, and read otherwise. All pages are listed
/// only where all are asked for.
pub proof fn what_is_asked_of_notes_and_pages(
    slug: String,
    notes: Option<String>,
    all: bool,
    defaults: Defaults,
    r: Result<Call, String>,
    list: Result<Call, String>,
)
    requires
        call_ensures(plan, (&Command::Notes { slug, notes }, &defaults), r),
        call_ensures(plan, (&Command::List { all }, &defaults), list),
    ensures
        notes matches Some(text) ==> is_call(
            r,
            "app_notes"@,
            "{\"notes\":"@ + json_string(text@) + member("slug"@, slug@) + "}"@,
        ),
        notes is None ==> is_call(r, "app_notes"@, "{\"slug\":"@ + json_string(slug@) + "}"@),
        list matches Ok(c) && c.tool@ == "list_pages"@ && c.show == Show::Pages && c.arguments@
            == if all {
            "{\"include_all\":true}"@
        } else {
            "{\"include_all\":false}"@
        },
{
}

/// A statement is run on the app's database with its values in their order.
pub proof fn what_a_statement_is_run_with(
    app: String,
    sql: String,
    params: Vec<Scalar>,
    written: Vec<String>,
    defaults: Defaults,
    r: Result<Call, String>,
)
    requires
        written.len() == params.len(),
        forall|i: int|
            0 <= i < params.len() ==> call_ensures(
                scalar_text,
                (&params@[i],),
                #[trigger] written@[i],
            ),
        call_ensures(plan, (&Command::Sql { app, sql, params }, &defaults), r),
    ensures
        r matches Ok(c) && c.tool@ == "run_sql"@ && c.show == Show::Rows && c.arguments@
            == "{\"app\":"@ + json_string(app@) + ",\"params\":"@ + list_json(texts(written@))
            + member("sql"@, sql@) + "}"@,
{
    let all = params@.map_values(|p: Scalar| crate::cli::scalar::scalar_json(p));
    assert(texts(written@) =~= all) by {
        assert forall|i: int| 0 <= i < params.len() implies texts(written@)[i] == all[i] by {
            assert(call_ensures(scalar_text, (&params@[i],), written@[i]));
        }
    }
}

/// A flag wins over the environment; a server takes a URL and a token.
pub proof fn a_flag_wins_over_the_environment(
    url: Option<String>,
    token: Option<String>,
    env_url: Option<String>,
    env_token: Option<String>,
    env_other: Option<String>,
    r: Result<Server, String>,
)
    requires
        call_ensures(server, (url, token, env_url, env_token, env_other), r),
    ensures
        r is Ok == ((url is Some || env_url is Some) && (token is Some || env_token is Some
            || env_other is Some)),
        r matches Ok(s) ==> url is Some ==> s.url@ == url->0@,
        r matches Ok(s) ==> url is None ==> s.url@ == env_url->0@,
        r matches Ok(s) ==> token is Some ==> s.token@ == token->0@,
        r matches Ok(s) ==> token is None && env_token is Some ==> s.token@ == env_token->0@,
        r matches Ok(s) ==> token is None && env_token is None ==> s.token@ == env_other->0@,
{
}

} // verus!
