//! What a command asks of the server.
use crate::cli::scalar::{scalar_json, scalar_text, Scalar};
use crate::encode::{json_quote, json_string};
use crate::platform::client_oauth::text_of;
use crate::runtime::db::{list_json, list_text};
use crate::text::texts;
use vstd::prelude::*;

verus! {

/// A command that is one call of a tool.
pub enum Command {
    /// Run SQL against one app's database, with values bound to `?`.
    Sql { app: String, sql: String, params: Vec<Scalar> },
    /// What is already published.
    List { all: bool },
    /// Create an account. There is no public signup, so this is how every
    /// account comes into being.
    UserAdd { email: String, password: Option<String>, admin: bool },
    /// Stop an account signing in, and end its live sessions now.
    UserDisable { email: String },
    /// Let a disabled account back in.
    UserEnable { email: String },
    /// Let an account reach an app whose gate is 'granted'.
    Grant { app: String, email: String, role: Option<String> },
    /// Take that access away again.
    Revoke { app: String, email: String },
    /// Decide who may reach an app, or one path within it.
    Gate { app: String, gate: String, path: Option<String> },
    /// Work an app does on its own: refreshing, scraping, tidying.
    Job {
        app: String,
        name: Option<String>,
        schedule: Option<String>,
        path: Option<String>,
        now: bool,
        remove: bool,
    },
    /// An app's settings: API keys and the like, readable only by its handler.
    Secret {
        app: String,
        name: Option<String>,
        value: Option<String>,
        remove: bool,
        link: bool,
    },
    /// Read or write the notes kept with an app for the next session.
    Notes { slug: String, notes: Option<String> },
    /// Take a page down, reversibly.
    Hide { slug: String },
    /// Restore a hidden page.
    Unhide { slug: String },
}

/// What the environment offers where a flag is left out.
pub struct Defaults {
    pub password: Option<String>,
    pub secret: Option<String>,
}

/// How the answer of a tool is shown.
#[derive(Clone, Copy, Debug, PartialEq, Eq, Structural)]
pub enum Show {
    /// As it is.
    Text,
    /// As the outcome of a statement.
    Rows,
    /// As a list of pages.
    Pages,
}

/// A call of a tool: its name, its arguments in JSON, and how its answer is
/// shown.
#[derive(Debug, PartialEq)]
pub struct Call {
    pub tool: String,
    pub arguments: String,
    pub show: Show,
}

/// A call of a tool over texts.
pub struct Asked {
    pub tool: Seq<char>,
    pub arguments: Seq<char>,
    pub show: Show,
}

impl View for Call {
    type V = Asked;

    open spec fn view(&self) -> Asked {
        Asked { tool: self.tool@, arguments: self.arguments@, show: self.show }
    }
}

/// A choice where a flag is given, else the environment's.
pub open spec fn flag_or(flag: Option<String>, default: Option<String>) -> Option<Seq<char>> {
    match flag {
        Some(value) => Some(value@),
        None => text_of(default),
    }
}

/// A call whose answer is shown as it is.
pub open spec fn asks(tool: Seq<char>, arguments: Seq<char>) -> Result<Asked, Seq<char>> {
    Ok(Asked { tool, arguments, show: Show::Text })
}

/// A field of an object that is not its first.
pub open spec fn more(name: Seq<char>, value: Seq<char>) -> Seq<char> {
    ",\""@ + name + "\":"@ + json_string(value)
}

/// What a command asks of the server, or why it asks nothing.
pub open spec fn planned(command: Command, defaults: Defaults) -> Result<Asked, Seq<char>> {
    match command {
        Command::Sql { app, sql, params } => Ok(
            Asked {
                tool: "run_sql"@,
                arguments: "{\"app\":"@ + json_string(app@) + ",\"params\":"@ + list_json(
                    params@.map_values(|p: Scalar| scalar_json(p)),
                ) + more("sql"@, sql@) + "}"@,
                show: Show::Rows,
            },
        ),
        Command::List { all } => Ok(
            Asked {
                tool: "list_pages"@,
                arguments: if all {
                    "{\"include_all\":true}"@
                } else {
                    "{\"include_all\":false}"@
                },
                show: Show::Pages,
            },
        ),
        // Without a password the server makes the account without one, and
        // answers with the link at which its owner chooses it.
        Command::UserAdd { email, password, admin } => asks(
            "create_user"@,
            if admin {
                "{\"admin\":true"@
            } else {
                "{\"admin\":false"@
            } + more("email"@, email@) + match flag_or(password, defaults.password) {
                Some(password) => more("password"@, password),
                None => ""@,
            } + "}"@,
        ),
        Command::UserDisable { email } => asks(
            "set_user_active"@,
            "{\"active\":false"@ + more("email"@, email@) + "}"@,
        ),
        Command::UserEnable { email } => asks(
            "set_user_active"@,
            "{\"active\":true"@ + more("email"@, email@) + "}"@,
        ),
        Command::Grant { app, email, role } => asks(
            "set_access"@,
            "{\"allow\":true"@ + more("app"@, app@) + more("email"@, email@) + match role {
                Some(role) => more("role"@, role@),
                None => ""@,
            } + "}"@,
        ),
        Command::Revoke { app, email } => asks(
            "set_access"@,
            "{\"allow\":false"@ + more("app"@, app@) + more("email"@, email@) + "}"@,
        ),
        Command::Gate { app, gate, path } => asks(
            "set_visibility"@,
            "{\"gate\":"@ + json_string(gate@) + match path {
                Some(path) => more("path"@, path@),
                None => ""@,
            } + more("slug"@, app@) + "}"@,
        ),
        Command::Job { app, name, schedule, path, now, remove } => match name {
            None => asks("app_jobs"@, "{\"app\":"@ + json_string(app@) + "}"@),
            Some(name) => if now {
                asks(
                    "app_jobs"@,
                    "{\"app\":"@ + json_string(app@) + more("name"@, name@)
                        + ",\"run_now\":true}"@,
                )
            } else if remove {
                asks(
                    "app_jobs"@,
                    "{\"app\":"@ + json_string(app@) + more("name"@, name@) + "}"@,
                )
            } else {
                match (schedule, path) {
                    (Some(schedule), Some(path)) => asks(
                        "app_jobs"@,
                        "{\"app\":"@ + json_string(app@) + more("name"@, name@) + more(
                            "path"@,
                            path@,
                        ) + more("schedule"@, schedule@) + "}"@,
                    ),
                    _ => Err("pass --schedule and --path"@),
                }
            },
        },
        Command::Secret { app, name, value, remove, link } => if link {
            asks("app_settings"@, "{\"app\":"@ + json_string(app@) + ",\"link\":true}"@)
        } else {
            match name {
                None => asks("app_settings"@, "{\"app\":"@ + json_string(app@) + "}"@),
                Some(name) => if remove {
                    asks(
                        "app_settings"@,
                        "{\"app\":"@ + json_string(app@) + more("name"@, name@) + "}"@,
                    )
                } else {
                    match flag_or(value, defaults.secret) {
                        None => Err("pass --value or set TOOLSITE_SECRET"@),
                        Some(value) => asks(
                            "app_settings"@,
                            "{\"app\":"@ + json_string(app@) + more("name"@, name@) + more(
                                "value"@,
                                value,
                            ) + "}"@,
                        ),
                    }
                },
            }
        },
        Command::Notes { slug, notes } => asks(
            "app_notes"@,
            match notes {
                Some(notes) => "{\"notes\":"@ + json_string(notes@) + more("slug"@, slug@) + "}"@,
                None => "{\"slug\":"@ + json_string(slug@) + "}"@,
            },
        ),
        Command::Hide { slug } => asks(
            "set_visibility"@,
            "{\"hidden\":true"@ + more("slug"@, slug@) + "}"@,
        ),
        Command::Unhide { slug } => asks(
            "set_visibility"@,
            "{\"hidden\":false"@ + more("slug"@, slug@) + "}"@,
        ),
    }
}

/// A field of an object that is not its first.
fn field(name: &str, value: &str) -> (r: String)
    ensures
        r@ == more(name@, value@),
{
    ",\"".to_owned().concat(name).concat("\":").concat(json_quote(value).as_str())
}

/// A call whose answer is shown as it is.
fn ask(tool: &str, arguments: String) -> (r: Result<Call, String>)
    ensures
        r matches Ok(call) && Ok::<Asked, Seq<char>>(call@) == asks(tool@, arguments@),
{
    Ok(Call { tool: tool.to_owned(), arguments, show: Show::Text })
}

/// The arguments of a tool that begin with the app.
fn of_app(app: &str) -> (r: String)
    ensures
        r@ == "{\"app\":"@ + json_string(app@),
{
    "{\"app\":".to_owned().concat(json_quote(app).as_str())
}

/// What a command asks of the server, or why it asks nothing.
pub fn plan(command: &Command, defaults: &Defaults) -> (r: Result<Call, String>)
    ensures
        match r {
            Ok(call) => planned(*command, *defaults) == Ok::<Asked, Seq<char>>(call@),
            Err(m) => planned(*command, *defaults) == Err::<Asked, Seq<char>>(m@),
        },
{
    match command {
        Command::Sql { app, sql, params } => {
            let mut items: Vec<String> = Vec::new();
            let mut i: usize = 0;
            while i < params.len()
                invariant
                    i <= params.len(),
                    items.len() == i,
                    forall|j: int|
                        0 <= j < i ==> (#[trigger] items@[j])@ == scalar_json(params@[j]),
                decreases params.len() - i,
            {
                items.push(scalar_text(&params[i]));
                i += 1;
            }
            assert(texts(items@) =~= params@.map_values(|p: Scalar| scalar_json(p)));
            Ok(
                Call {
                    tool: "run_sql".to_owned(),
                    arguments: of_app(app.as_str()).concat(",\"params\":").concat(
                        list_text(&items).as_str(),
                    ).concat(field("sql", sql.as_str()).as_str()).concat("}"),
                    show: Show::Rows,
                },
            )
        },
        Command::List { all } => Ok(
            Call {
                tool: "list_pages".to_owned(),
                arguments: if *all {
                    "{\"include_all\":true}".to_owned()
                } else {
                    "{\"include_all\":false}".to_owned()
                },
                show: Show::Pages,
            },
        ),
        Command::UserAdd { email, password, admin } => {
            let secret: String = match password {
                Some(password) => field("password", password.as_str()),
                None => match &defaults.password {
                    Some(password) => field("password", password.as_str()),
                    None => "".to_owned(),
                },
            };
            let head: String = if *admin {
                "{\"admin\":true".to_owned()
            } else {
                "{\"admin\":false".to_owned()
            };
            ask(
                "create_user",
                head.concat(field("email", email.as_str()).as_str()).concat(
                    secret.as_str(),
                ).concat("}"),
            )
        },
        Command::UserDisable { email } => ask(
            "set_user_active",
            "{\"active\":false".to_owned().concat(field("email", email.as_str()).as_str()).concat(
                "}",
            ),
        ),
        Command::UserEnable { email } => ask(
            "set_user_active",
            "{\"active\":true".to_owned().concat(field("email", email.as_str()).as_str()).concat(
                "}",
            ),
        ),
        Command::Grant { app, email, role } => {
            let role: String = match role {
                Some(role) => field("role", role.as_str()),
                None => "".to_owned(),
            };
            ask(
                "set_access",
                "{\"allow\":true".to_owned().concat(field("app", app.as_str()).as_str()).concat(
                    field("email", email.as_str()).as_str(),
                ).concat(role.as_str()).concat("}"),
            )
        },
        Command::Revoke { app, email } => ask(
            "set_access",
            "{\"allow\":false".to_owned().concat(field("app", app.as_str()).as_str()).concat(
                field("email", email.as_str()).as_str(),
            ).concat("}"),
        ),
        Command::Gate { app, gate, path } => {
            let path: String = match path {
                Some(path) => field("path", path.as_str()),
                None => "".to_owned(),
            };
            ask(
                "set_visibility",
                "{\"gate\":".to_owned().concat(json_quote(gate.as_str()).as_str()).concat(
                    path.as_str(),
                ).concat(field("slug", app.as_str()).as_str()).concat("}"),
            )
        },
        Command::Job { app, name, schedule, path, now, remove } => match name {
            None => ask("app_jobs", of_app(app.as_str()).concat("}")),
            Some(name) => {
                let head = of_app(app.as_str()).concat(field("name", name.as_str()).as_str());
                if *now {
                    ask("app_jobs", head.concat(",\"run_now\":true}"))
                } else if *remove {
                    ask("app_jobs", head.concat("}"))
                } else {
                    match (schedule, path) {
                        (Some(schedule), Some(path)) => ask(
                            "app_jobs",
                            head.concat(field("path", path.as_str()).as_str()).concat(
                                field("schedule", schedule.as_str()).as_str(),
                            ).concat("}"),
                        ),
                        _ => Err("pass --schedule and --path".to_owned()),
                    }
                }
            },
        },
        Command::Secret { app, name, value, remove, link } => {
            if *link {
                return ask("app_settings", of_app(app.as_str()).concat(",\"link\":true}"));
            }
            match name {
                None => ask("app_settings", of_app(app.as_str()).concat("}")),
                Some(name) => {
                    let head = of_app(app.as_str()).concat(field("name", name.as_str()).as_str());
                    if *remove {
                        return ask("app_settings", head.concat("}"));
                    }
                    let value: &str = match value {
                        Some(value) => value.as_str(),
                        None => match &defaults.secret {
                            Some(value) => value.as_str(),
                            None => {
                                return Err("pass --value or set TOOLSITE_SECRET".to_owned());
                            },
                        },
                    };
                    ask(
                        "app_settings",
                        head.concat(field("value", value).as_str()).concat("}"),
                    )
                },
            }
        },
        Command::Notes { slug, notes } => {
            let arguments: String = match notes {
                Some(notes) => "{\"notes\":".to_owned().concat(
                    json_quote(notes.as_str()).as_str(),
                ).concat(field("slug", slug.as_str()).as_str()).concat("}"),
                None => "{\"slug\":".to_owned().concat(json_quote(slug.as_str()).as_str()).concat(
                    "}",
                ),
            };
            ask("app_notes", arguments)
        },
        Command::Hide { slug } => ask(
            "set_visibility",
            "{\"hidden\":true".to_owned().concat(field("slug", slug.as_str()).as_str()).concat(
                "}",
            ),
        ),
        Command::Unhide { slug } => ask(
            "set_visibility",
            "{\"hidden\":false".to_owned().concat(field("slug", slug.as_str()).as_str()).concat(
                "}",
            ),
        ),
    }
}

/// Where the server is and what to present to it.
pub struct Server {
    pub url: String,
    pub token: String,
}

/// The first of some texts that is there.
pub open spec fn first_text(a: Option<String>, b: Option<String>, c: Option<String>) -> Option<
    Seq<char>,
> {
    match a {
        Some(s) => Some(s@),
        None => match b {
            Some(s) => Some(s@),
            None => text_of(c),
        },
    }
}

/// Where the server is and what to present to it: the flags win over the
/// environment.
pub fn server(
    url: Option<String>,
    token: Option<String>,
    env_url: Option<String>,
    env_token: Option<String>,
    env_mcp_token: Option<String>,
) -> (r: Result<Server, String>)
    ensures
        match r {
            Ok(server) => first_text(url, env_url, None) == Some(server.url@) && first_text(
                token,
                env_token,
                env_mcp_token,
            ) == Some(server.token@),
            Err(m) => if first_text(url, env_url, None) is None {
                m@ == "set --url or TOOLSITE_URL"@
            } else {
                first_text(token, env_token, env_mcp_token) is None && m@
                    == "set --token or TOOLSITE_TOKEN"@
            },
        },
{
    let url: String = match url {
        Some(url) => url,
        None => match env_url {
            Some(url) => url,
            None => {
                return Err("set --url or TOOLSITE_URL".to_owned());
            },
        },
    };
    let token: String = match token {
        Some(token) => token,
        None => match env_token {
            Some(token) => token,
            None => match env_mcp_token {
                Some(token) => token,
                None => {
                    return Err("set --token or TOOLSITE_TOKEN".to_owned());
                },
            },
        },
    };
    Ok(Server { url, token })
}

/// A secret that is left to the environment reaches the server, and the command
/// itself need not hold it.
pub proof fn secrets_may_stay_out_of_the_command(
    app: String,
    name: String,
    value: String,
    password: Option<String>,
)
    ensures
        planned(
            Command::Secret { app, name: Some(name), value: None, remove: false, link: false },
            Defaults { password, secret: Some(value) },
        ) == planned(
            Command::Secret {
                app,
                name: Some(name),
                value: Some(value),
                remove: false,
                link: false,
            },
            Defaults { password, secret: None },
        ),
{
}

} // verus!
