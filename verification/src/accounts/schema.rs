//! The account database's shape, and how it moves forward.
//!
//! `create table if not exists` cannot evolve a schema: add a column and that
//! statement silently does nothing on every database that already exists, so
//! the failure surfaces later as "no such column" against live accounts. A
//! versioned ladder keyed on SQLite's own `user_version` does not have that
//! failure mode — each step runs exactly once, in order, in a transaction.
//!
//! Only *this* database is migrated. Each app's `data.db` belongs to the app,
//! and its schema is the app's business.
use crate::config::Config;
use crate::content::store::{inside, join_path};
use crate::text::texts;
use vstd::prelude::*;

verus! {

/// The first step.
pub const INITIAL: &'static str = r#"
-- Accounts are global to the site. One without a password is waiting for its
-- owner to choose it.
CREATE TABLE users (
    id text primary key,
    email text not null unique,
    password_hash text,
    created_at integer not null,
    is_admin integer not null default 0,
    is_active integer not null default 1
);

-- Who an account is elsewhere.
CREATE TABLE identities (
    provider text not null,
    subject text not null,
    user_id text not null references users(id) on delete cascade,
    primary key (provider, subject)
);

-- A session without a scope is of the site, else of one app.
CREATE TABLE sessions (
    token_hash text primary key,
    user_id text not null references users(id) on delete cascade,
    expires_at integer not null,
    scope text
);

CREATE INDEX sessions_user on sessions(user_id);

CREATE TABLE grants (
    user_id text not null references users(id) on delete cascade,
    app text not null,
    role text not null default 'viewer',
    primary key (user_id, app)
);

-- A link by which an account's owner chooses its password. One for each.
CREATE TABLE invitations (
    user_id text primary key references users(id) on delete cascade,
    token_hash text not null unique,
    expires_at integer not null
);
"#;

/// What the steps build, as SQLite reports it in the order of names.
pub const SCHEMA: &'static str = r#"
CREATE TABLE grants (
    user_id text not null references users(id) on delete cascade,
    app text not null,
    role text not null default 'viewer',
    primary key (user_id, app)
)
CREATE TABLE identities (
    provider text not null,
    subject text not null,
    user_id text not null references users(id) on delete cascade,
    primary key (provider, subject)
)
CREATE TABLE invitations (
    user_id text primary key references users(id) on delete cascade,
    token_hash text not null unique,
    expires_at integer not null
)
CREATE TABLE sessions (
    token_hash text primary key,
    user_id text not null references users(id) on delete cascade,
    expires_at integer not null,
    scope text
)
CREATE INDEX sessions_user on sessions(user_id)
CREATE TABLE users (
    id text primary key,
    email text not null unique,
    password_hash text,
    created_at integer not null,
    is_admin integer not null default 0,
    is_active integer not null default 1
)
"#;

/// The steps of the ladder. Append only: editing a step that has already run
/// somewhere means databases disagree about what version 1 was.
pub fn migrations() -> (r: Vec<String>)
    ensures
        texts(r@) == seq![INITIAL@],
{
    let mut steps: Vec<String> = Vec::new();
    steps.push(INITIAL.to_owned());
    assert(texts(steps@) =~= seq![INITIAL@]);
    steps
}

/// Where the account database is: under a dot-directory, which no slug can name,
/// so no URL and no app reaches it.
pub fn site_db_path(config: &Config) -> (r: String)
    ensures
        r@ == inside(inside(config.data_dir@, ".site"@), "auth.db"@),
{
    join_path(join_path(config.data_dir.as_str(), ".site").as_str(), "auth.db")
}

} // verus!
