//! People who *use* published apps.
//!
//! Identity is global and permissions are per app: one account across the
//! site, with a grant naming which apps it may reach. That way a private app
//! is "these people", not "a shared password", and a person has one login.
//!
//! Sessions come in two tiers, because every app shares one origin. A *site*
//! session proves who the person is and nothing else. An *app* session is a
//! separate token, scoped to one app and delivered in a cookie the browser
//! only sends to `/p/<app>/`. A page can therefore never borrow the visitor's
//! standing with a neighbouring app: the credential is not in its jar to
//! send. Access to an app is granted by the handoff, never assumed from being
//! signed in.
use crate::accounts::rows::{
    find, first, first_from, keep, lemma_first, lemma_kept, lemma_kept_order,
};
use crate::content::slug::{is_drawn, is_slug, random_token, valid_slug};
use crate::crypto::{
    accepted, password_check, argon2_hash, check_password, hash_password, hash_token, random_bytes,
    token_hash,
};
use crate::text::{contains_char, lowercase, same, to_chars, to_lowercase, trim, trimmed};
use vstd::prelude::*;
use vstd::utf8::encode_utf8;

verus! {

/// Sessions last a fortnight; long enough not to nag, short enough that a
/// stolen cookie expires. In seconds.
pub const SESSION_LIFETIME: u64 = 1_209_600;

/// An app session is re-minted by a redirect the visitor never sees, so a
/// tight ceiling costs nothing. It is also capped at the site session's own
/// expiry, so signing in once can never keep an app open for longer.
pub const APP_SESSION_LIFETIME: u64 = 86_400;

/// How long an invitation works.
pub const INVITE_LIFETIME: u64 = 172_800;

/// The last time at which a lifetime can still be added to.
pub const LAST_TIME: u64 = 9_223_372_036_853_566_207;

/// Someone who is signed in.
#[derive(Debug, Clone, PartialEq)]
pub struct User {
    pub id: String,
    pub email: String,
    pub is_admin: bool,
}

/// An account. One without a password is waiting for its owner to choose it.
pub struct Account {
    pub id: String,
    pub email: String,
    pub password_hash: Option<String>,
    pub created_at: u64,
    pub is_admin: bool,
    pub is_active: bool,
}

/// A session: of the site where it has no scope, else of one app.
pub struct Session {
    pub token_hash: String,
    pub user_id: String,
    pub expires_at: u64,
    pub scope: Option<String>,
}

/// An account's access to an app.
pub struct Grant {
    pub user_id: String,
    pub app: String,
    pub role: String,
}

/// A link by which an account's owner chooses its password.
pub struct Invitation {
    pub user_id: String,
    pub token_hash: String,
    pub expires_at: u64,
}

/// The accounts of a site.
pub struct Accounts {
    pub users: Vec<Account>,
    pub sessions: Vec<Session>,
    pub grants: Vec<Grant>,
    pub invitations: Vec<Invitation>,
}

impl Accounts {
    /// No accounts at all.
    pub fn new() -> (r: Self)
        ensures
            r.users.len() == 0,
            r.sessions.len() == 0,
            r.grants.len() == 0,
            r.invitations.len() == 0,
            r.wf(),
    {
        Accounts {
            users: Vec::new(),
            sessions: Vec::new(),
            grants: Vec::new(),
            invitations: Vec::new(),
        }
    }

    /// No two accounts share an id or an email, no two sessions a token, no
    /// account has two grants on one app, or two invitations.
    pub open spec fn wf(self) -> bool {
        &&& forall|i: int, j: int|
            #![trigger self.users@[i], self.users@[j]]
            0 <= i < j < self.users.len() ==> self.users@[i].id@ != self.users@[j].id@
                && self.users@[i].email@ != self.users@[j].email@
        &&& forall|i: int, j: int|
            #![trigger self.sessions@[i], self.sessions@[j]]
            0 <= i < j < self.sessions.len() ==> self.sessions@[i].token_hash@
                != self.sessions@[j].token_hash@
        &&& forall|i: int, j: int|
            #![trigger self.grants@[i], self.grants@[j]]
            0 <= i < j < self.grants.len() ==> self.grants@[i].user_id@ != self.grants@[j].user_id@
                || self.grants@[i].app@ != self.grants@[j].app@
        &&& forall|i: int, j: int|
            #![trigger self.invitations@[i], self.invitations@[j]]
            0 <= i < j < self.invitations.len() ==> self.invitations@[i].user_id@
                != self.invitations@[j].user_id@
    }

    /// The account of an email.
    pub open spec fn by_email(self, email: Seq<char>) -> Option<Account> {
        first(self.users@, has_email(email))
    }

    /// The account of an id.
    pub open spec fn by_id(self, id: Seq<char>) -> Option<Account> {
        first(self.users@, has_id(id))
    }

    /// The session of a token, in any state.
    pub open spec fn by_token(self, token: Seq<char>) -> Option<Session> {
        first(self.sessions@, |s: Session| s.token_hash@ == token_hash(token))
    }
}

/// Whether an account has an email.
pub open spec fn has_email(email: Seq<char>) -> spec_fn(Account) -> bool {
    |u: Account| u.email@ == email
}

/// Whether an account has an id.
pub open spec fn has_id(id: Seq<char>) -> spec_fn(Account) -> bool {
    |u: Account| u.id@ == id
}

/// Whether a session is another account's.
pub open spec fn of_others(id: Seq<char>) -> spec_fn(Session) -> bool {
    |s: Session| s.user_id@ != id
}

/// Whether an invitation is another account's.
pub open spec fn invites_others(id: Seq<char>) -> spec_fn(Invitation) -> bool {
    |v: Invitation| v.user_id@ != id
}

/// Whether an optional string is the given optional text.
pub open spec fn scope_is(scope: Option<String>, wanted: Option<Seq<char>>) -> bool {
    match (scope, wanted) {
        (Some(a), Some(b)) => a@ == b,
        (None, None) => true,
        _ => false,
    }
}

/// One cookie per app. The name keeps a browser's jar readable; the `Path` is
/// what actually does the work.
pub open spec fn app_cookie(app: Seq<char>) -> Seq<char> {
    "ts_app_"@ + app
}

/// The name of an app's cookie.
pub fn app_cookie_name(app: &str) -> (r: String)
    ensures
        r@ == app_cookie(app@),
{
    "ts_app_".to_owned().concat(app)
}

/// The whole isolation story in one line: a cookie is only sent to paths the
/// `Path` prefixes, so one app's script gets nothing back for another's paths.
pub open spec fn app_path(app: Seq<char>) -> Seq<char> {
    "/p/"@ + app + "/"@
}

/// The path that an app's cookie is sent to.
pub fn app_cookie_path(app: &str) -> (r: String)
    ensures
        r@ == app_path(app@),
{
    "/p/".to_owned().concat(app).concat("/")
}

/// What an app session may be scoped to: a slug of a single segment, so that
/// it fits a cookie's name and is exactly the first segment of `/p/<app>/`.
pub open spec fn is_scope(app: Seq<char>) -> bool {
    is_slug(app) && !app.contains('/')
}

/// Whether an app session may be scoped to this name.
pub fn valid_app_scope(app: &str) -> (r: bool)
    ensures
        r == is_scope(app@),
{
    valid_slug(app) && !contains_char(app, '/')
}

/// An email as it is stored and looked up.
pub open spec fn normal(email: Seq<char>) -> Seq<char> {
    lowercase(trimmed(email))
}

/// An email as it is stored and looked up: spacing and case do not make a
/// second account.
pub fn normalise(email: &str) -> (r: String)
    ensures
        r@ == normal(email@),
{
    to_lowercase(trim(email).as_str())
}

/// Why an email or a password is refused, if it is.
pub open spec fn refusal(email: Seq<char>, password: Seq<char>) -> Option<Seq<char>> {
    if !email.contains('@') || encode_utf8(email).len() < 3 {
        Some("that does not look like an email address"@)
    } else if password.len() < 8 {
        Some("password must be at least 8 characters"@)
    } else {
        None
    }
}

/// Whether an id or an email is taken.
pub open spec fn taken(accounts: Accounts, id: Seq<char>, email: Seq<char>) -> bool {
    exists|i: int|
        #![trigger accounts.users@[i]]
        0 <= i < accounts.users.len() && (accounts.users@[i].id@ == id
            || accounts.users@[i].email@ == email)
}

/// What stays as it is where only accounts change.
pub open spec fn only_users_change(a: Accounts, b: Accounts) -> bool {
    a.sessions@ == b.sessions@ && a.grants@ == b.grants@ && a.invitations@ == b.invitations@
}

/// What stays as it is where only sessions change.
pub open spec fn only_sessions_change(a: Accounts, b: Accounts) -> bool {
    a.users@ == b.users@ && a.grants@ == b.grants@ && a.invitations@ == b.invitations@
}

/// What stays as it is where only grants change.
pub open spec fn only_grants_change(a: Accounts, b: Accounts) -> bool {
    a.users@ == b.users@ && a.sessions@ == b.sessions@ && a.invitations@ == b.invitations@
}

/// Adds an account, unless its id or its email is taken.
pub fn add_user(
    accounts: &mut Accounts,
    id: String,
    email: String,
    password_hash: Option<String>,
    is_admin: bool,
    now: u64,
) -> (r: Result<User, String>)
    ensures
        old(accounts).wf() ==> final(accounts).wf(),
        match r {
            Ok(user) => {
                &&& !taken(*old(accounts), id@, email@)
                &&& user.id@ == id@
                &&& user.email@ == email@
                &&& user.is_admin == is_admin
                &&& only_users_change(*old(accounts), *final(accounts))
                &&& final(accounts).users@ == old(accounts).users@.push(
                    (Account { id, email, password_hash, created_at: now, is_admin, is_active: true }),
                )
            },
            Err(m) => {
                &&& taken(*old(accounts), id@, email@)
                &&& m@ == "that email is already registered"@
                &&& *final(accounts) == *old(accounts)
            },
        },
{
    let mut i: usize = 0;
    while i < accounts.users.len()
        invariant
            i <= accounts.users.len(),
            *accounts == *old(accounts),
            forall|j: int|
                #![trigger accounts.users@[j]]
                0 <= j < i ==> accounts.users@[j].id@ != id@ && accounts.users@[j].email@
                    != email@,
        decreases accounts.users.len() - i,
    {
        if accounts.users[i].id == id || accounts.users[i].email == email {
            return Err("that email is already registered".to_owned());
        }
        i += 1;
    }
    let user = User { id: id.clone(), email: email.clone(), is_admin };
    accounts.users.push(
        Account { id, email, password_hash, created_at: now, is_admin, is_active: true },
    );
    Ok(user)
}

/// What making an account does, given the id drawn for it and the salt of its
/// password.
pub open spec fn signed_up(
    before: Accounts,
    after: Accounts,
    email: Seq<char>,
    password: Seq<char>,
    is_admin: bool,
    id: Seq<char>,
    salt: Seq<u8>,
    now: u64,
    r: Result<User, String>,
) -> bool {
    let email = normal(email);
    match refusal(email, password) {
        Some(why) => r matches Err(m) && m@ == why && after == before,
        None => match argon2_hash(password, salt) {
            Err(why) => r matches Err(m) && m@ == why && after == before,
            Ok(hash) => if taken(before, id, email) {
                &&& r matches Err(m)
                &&& m@ == "that email is already registered"@
                &&& after == before
            } else {
                &&& r matches Ok(user)
                &&& user.id@ == id
                &&& user.email@ == email
                &&& user.is_admin == is_admin
                &&& only_users_change(before, after)
                &&& after.users.len() == before.users.len() + 1
                &&& after.users@.drop_last() == before.users@
                &&& is_account(after.users@.last(), id, email, Some(hash), now, is_admin)
            },
        },
    }
}

/// Whether an account holds the given values and is active.
pub open spec fn is_account(
    a: Account,
    id: Seq<char>,
    email: Seq<char>,
    hash: Option<Seq<char>>,
    now: u64,
    is_admin: bool,
) -> bool {
    &&& a.id@ == id
    &&& a.email@ == email
    &&& scope_is(a.password_hash, hash)
    &&& a.created_at == now
    &&& a.is_admin == is_admin
    &&& a.is_active
}

/// Makes an account with the id and the salt that were drawn for it.
pub fn sign_up_with(
    accounts: &mut Accounts,
    email: &str,
    password: &str,
    is_admin: bool,
    id: String,
    salt: &Vec<u8>,
    now: u64,
) -> (r: Result<User, String>)
    requires
        salt.len() == 16,
    ensures
        signed_up(
            *old(accounts),
            *final(accounts),
            email@,
            password@,
            is_admin,
            id@,
            salt@,
            now,
            r,
        ),
        old(accounts).wf() ==> final(accounts).wf(),
        r is Ok ==> accepted(
            password_check(final(accounts).users@.last().password_hash->0@, password@),
        ),
{
    let email = normalise(email);
    if !contains_char(email.as_str(), '@') || email.as_str().as_bytes().len() < 3 {
        return Err("that does not look like an email address".to_owned());
    }
    if to_chars(password).len() < 8 {
        return Err("password must be at least 8 characters".to_owned());
    }
    match hash_password(password, salt) {
        Err(m) => Err(m),
        Ok(hash) => {
            let r = add_user(accounts, id, email, Some(hash), is_admin, now);
            proof {
                if r is Ok {
                    assert(accounts.users@.drop_last() =~= old(accounts).users@);
                }
            }
            r
        },
    }
}

/// Makes an account. Of what comes out, only the id and the salt are left to
/// chance.
pub fn sign_up_as(
    accounts: &mut Accounts,
    email: &str,
    password: &str,
    is_admin: bool,
    now: u64,
) -> (r: Result<User, String>)
    ensures
        exists|id: Seq<char>, salt: Seq<u8>|
            is_drawn(id, 16) && salt.len() == 16 && #[trigger] signed_up(
                *old(accounts),
                *final(accounts),
                email@,
                password@,
                is_admin,
                id,
                salt,
                now,
                r,
            ),
        old(accounts).wf() ==> final(accounts).wf(),
        r is Ok ==> accepted(
            password_check(final(accounts).users@.last().password_hash->0@, password@),
        ),
{
    let id = random_token(16);
    let salt = random_bytes(16);
    sign_up_with(accounts, email, password, is_admin, id, &salt, now)
}

/// Makes an ordinary account.
pub fn sign_up(accounts: &mut Accounts, email: &str, password: &str, now: u64) -> (r: Result<
    User,
    String,
>)
    ensures
        exists|id: Seq<char>, salt: Seq<u8>|
            is_drawn(id, 16) && salt.len() == 16 && #[trigger] signed_up(
                *old(accounts),
                *final(accounts),
                email@,
                password@,
                false,
                id,
                salt,
                now,
                r,
            ),
        old(accounts).wf() ==> final(accounts).wf(),
        r is Ok ==> accepted(
            password_check(final(accounts).users@.last().password_hash->0@, password@),
        ),
{
    sign_up_as(accounts, email, password, false, now)
}

/// Whether a session may not be added, its token being known already.
pub open spec fn known_token(accounts: Accounts, token: Seq<char>) -> bool {
    exists|i: int|
        #![trigger accounts.sessions@[i]]
        0 <= i < accounts.sessions.len() && accounts.sessions@[i].token_hash@ == token_hash(token)
}

/// Whether a session holds the given values.
pub open spec fn is_session(
    s: Session,
    token: Seq<char>,
    user_id: Seq<char>,
    expires_at: u64,
    scope: Option<Seq<char>>,
) -> bool {
    &&& s.token_hash@ == token_hash(token)
    &&& s.user_id@ == user_id
    &&& s.expires_at == expires_at
    &&& scope_is(s.scope, scope)
}

/// Whether a session was added and nothing else changed.
pub open spec fn session_added(
    before: Accounts,
    after: Accounts,
    token: Seq<char>,
    user_id: Seq<char>,
    expires_at: u64,
    scope: Option<Seq<char>>,
) -> bool {
    &&& only_sessions_change(before, after)
    &&& after.sessions.len() == before.sessions.len() + 1
    &&& after.sessions@.drop_last() == before.sessions@
    &&& is_session(after.sessions@.last(), token, user_id, expires_at, scope)
}

/// An optional text.
pub open spec fn opt_str(s: Option<&str>) -> Option<Seq<char>> {
    match s {
        Some(s) => Some(s@),
        None => None,
    }
}

/// Adds a session, unless its token is known already.
fn add_session(
    accounts: &mut Accounts,
    token: &str,
    user_id: &str,
    expires_at: u64,
    scope: Option<&str>,
) -> (r: Result<(), String>)
    ensures
        old(accounts).wf() ==> final(accounts).wf(),
        match r {
            Ok(_) => !known_token(*old(accounts), token@) && session_added(
                *old(accounts),
                *final(accounts),
                token@,
                user_id@,
                expires_at,
                opt_str(scope),
            ),
            Err(m) => known_token(*old(accounts), token@) && m@
                == "UNIQUE constraint failed: sessions.token_hash"@ && *final(accounts) == *old(
                accounts,
            ),
        },
{
    let hash = hash_token(token);
    let mut i: usize = 0;
    while i < accounts.sessions.len()
        invariant
            i <= accounts.sessions.len(),
            *accounts == *old(accounts),
            hash@ == token_hash(token@),
            forall|j: int|
                #![trigger accounts.sessions@[j]]
                0 <= j < i ==> accounts.sessions@[j].token_hash@ != hash@,
        decreases accounts.sessions.len() - i,
    {
        if accounts.sessions[i].token_hash == hash {
            return Err("UNIQUE constraint failed: sessions.token_hash".to_owned());
        }
        i += 1;
    }
    let scope: Option<String> = match scope {
        Some(s) => Some(s.to_owned()),
        None => None,
    };
    accounts.sessions.push(
        Session { token_hash: hash, user_id: user_id.to_owned(), expires_at, scope },
    );
    proof {
        assert(accounts.sessions@.drop_last() =~= old(accounts).sessions@);
    }
    Ok(())
}

/// The one message for an unknown email, a wrong password, an account that has
/// none yet and one that is disabled.
pub open spec fn no_entry() -> Seq<char> {
    "email or password is incorrect"@
}

/// What signing in does, given the token drawn for the session.
pub open spec fn logged_in(
    before: Accounts,
    after: Accounts,
    email: Seq<char>,
    password: Seq<char>,
    token: Seq<char>,
    now: u64,
    r: Result<(User, String), String>,
) -> bool {
    match before.by_email(normal(email)) {
        None => r matches Err(m) && m@ == no_entry() && after == before,
        Some(a) => if a.password_hash is None || !a.is_active {
            r matches Err(m) && m@ == no_entry() && after == before
        } else {
            match password_check(a.password_hash->0@, password) {
                Err(why) => r matches Err(m) && m@ == why && after == before,
                Ok(right) => if !right {
                    r matches Err(m) && m@ == no_entry() && after == before
                } else if known_token(before, token) {
                    r is Err && after == before
                } else {
                    &&& r matches Ok((user, t))
                    &&& t@ == token
                    &&& user.id@ == a.id@
                    &&& user.email@ == a.email@
                    &&& user.is_admin == a.is_admin
                    &&& session_added(
                        before,
                        after,
                        token,
                        a.id@,
                        (now + SESSION_LIFETIME) as u64,
                        None,
                    )
                },
            }
        },
    }
}

/// The account of an email.
fn find_email(accounts: &Accounts, email: &str) -> (r: Option<usize>)
    ensures
        match r {
            Some(i) => i < accounts.users.len() && accounts.by_email(email@) == Some(
                accounts.users@[i as int],
            ) && accounts.users@[i as int].email@ == email@ && i == first_from(
                accounts.users@,
                has_email(email@),
                0,
            ),
            None => accounts.by_email(email@) is None,
        },
{
    let test = |u: &Account| -> (b: bool)
        ensures
            b == (u.email@ == email@)
    {
        same(u.email.as_str(), email)
    };
    find(&accounts.users, test, Ghost(has_email(email@)))
}

/// Hashes a password for nothing: comparable time is spent on an address that
/// cannot sign in, so timing does not tell which half was wrong.
fn spend_time(password: &str) {
    let salt = random_bytes(16);
    let _ = hash_password(password, &salt);
}

/// Signs in with the token that was drawn for the session. The same message is
/// given whether the email is unknown or the password is wrong, so this cannot
/// be used to enumerate accounts.
pub fn log_in_with(
    accounts: &mut Accounts,
    email: &str,
    password: &str,
    token: String,
    now: u64,
) -> (r: Result<(User, String), String>)
    requires
        now <= LAST_TIME,
    ensures
        logged_in(*old(accounts), *final(accounts), email@, password@, token@, now, r),
        old(accounts).wf() ==> final(accounts).wf(),
{
    let email = normalise(email);
    let i: usize = match find_email(accounts, email.as_str()) {
        Some(i) => i,
        None => {
            spend_time(password);
            return Err("email or password is incorrect".to_owned());
        },
    };
    // A row without a password is waiting for its owner to choose one, so there
    // is nothing here to verify against.
    let stored: String = match &accounts.users[i].password_hash {
        Some(stored) => stored.clone(),
        None => {
            spend_time(password);
            return Err("email or password is incorrect".to_owned());
        },
    };
    if !accounts.users[i].is_active {
        spend_time(password);
        return Err("email or password is incorrect".to_owned());
    }
    match check_password(stored.as_str(), password) {
        Err(m) => {
            return Err(m);
        },
        Ok(right) => {
            if !right {
                return Err("email or password is incorrect".to_owned());
            }
        },
    }
    let user = User {
        id: accounts.users[i].id.clone(),
        email: accounts.users[i].email.clone(),
        is_admin: accounts.users[i].is_admin,
    };
    match add_session(accounts, token.as_str(), user.id.as_str(), now + SESSION_LIFETIME, None) {
        Ok(_) => Ok((user, token)),
        Err(m) => Err(m),
    }
}

/// Signs in: a session token on success, which only chance decides.
pub fn log_in(accounts: &mut Accounts, email: &str, password: &str, now: u64) -> (r: Result<
    (User, String),
    String,
>)
    requires
        now <= LAST_TIME,
    ensures
        exists|token: Seq<char>|
            is_drawn(token, 48) && #[trigger] logged_in(
                *old(accounts),
                *final(accounts),
                email@,
                password@,
                token,
                now,
                r,
            ),
        old(accounts).wf() ==> final(accounts).wf(),
{
    let token = random_token(48);
    log_in_with(accounts, email, password, token, now)
}

/// Whether a session is the live one of a token and a tier.
pub open spec fn is_live(s: Session, token: Seq<char>, scope: Option<Seq<char>>, now: u64) -> bool {
    s.token_hash@ == token_hash(token) && s.expires_at >= now && scope_is(s.scope, scope)
}

/// The live session of a token and a tier, with its account, which must be
/// active.
pub open spec fn live_session(
    accounts: Accounts,
    token: Seq<char>,
    scope: Option<Seq<char>>,
    now: u64,
) -> Option<(Session, Account)> {
    match first(accounts.sessions@, |s: Session| is_live(s, token, scope, now)) {
        None => None,
        Some(s) => match accounts.by_id(s.user_id@) {
            None => None,
            Some(a) => if a.is_active {
                Some((s, a))
            } else {
                None
            },
        },
    }
}

/// Whether a session's scope is the wanted one.
fn scope_matches(scope: &Option<String>, wanted: Option<&str>) -> (r: bool)
    ensures
        r == scope_is(*scope, opt_str(wanted)),
{
    match (scope, wanted) {
        (Some(a), Some(b)) => same(a.as_str(), b),
        (None, None) => true,
        _ => false,
    }
}

/// The live session of a token and a tier: its position and that of its
/// account.
fn find_live(accounts: &Accounts, token: &str, scope: Option<&str>, now: u64) -> (r: Option<
    (usize, usize),
>)
    ensures
        match r {
            Some((i, k)) => i < accounts.sessions.len() && k < accounts.users.len()
                && live_session(*accounts, token@, opt_str(scope), now) == Some(
                (accounts.sessions@[i as int], accounts.users@[k as int]),
            ),
            None => live_session(*accounts, token@, opt_str(scope), now) is None,
        },
{
    let hash = hash_token(token);
    let test = |s: &Session| -> (b: bool)
        ensures
            b == is_live(*s, token@, opt_str(scope), now)
    {
        same(s.token_hash.as_str(), hash.as_str()) && s.expires_at >= now && scope_matches(
            &s.scope,
            scope,
        )
    };
    let found = find(
        &accounts.sessions,
        test,
        Ghost(|s: Session| is_live(s, token@, opt_str(scope), now)),
    );
    match found {
        None => None,
        Some(i) => match find_account(accounts, accounts.sessions[i].user_id.as_str()) {
            None => None,
            Some(k) => if accounts.users[k].is_active {
                Some((i, k))
            } else {
                None
            },
        },
    }
}

/// When an app session ends: a day on, and never after the site session it
/// descends from.
pub open spec fn app_expiry(now: u64, site_expires: u64) -> u64 {
    if now + APP_SESSION_LIFETIME <= site_expires {
        (now + APP_SESSION_LIFETIME) as u64
    } else {
        site_expires
    }
}

/// What trading a site session for an app session does, given the token drawn
/// for the app session.
pub open spec fn app_session_made(
    before: Accounts,
    after: Accounts,
    site_token: Seq<char>,
    app: Seq<char>,
    token: Seq<char>,
    now: u64,
    r: Result<(User, String, u64), String>,
) -> bool {
    if !is_scope(app) {
        r matches Err(m) && m@ == "invalid app name"@ && after == before
    } else {
        match live_session(before, site_token, None, now) {
            None => r matches Err(m) && m@ == "not signed in"@ && after == before,
            Some((s, a)) => {
                let expires = app_expiry(now, s.expires_at);
                if expires <= now {
                    r matches Err(m) && m@ == "not signed in"@ && after == before
                } else if known_token(before, token) {
                    r is Err && after == before
                } else {
                    &&& r matches Ok((user, t, max_age))
                    &&& user.id@ == a.id@
                    &&& user.email@ == a.email@
                    &&& user.is_admin == a.is_admin
                    &&& t@ == token
                    &&& max_age == expires - now
                    &&& session_added(before, after, token, a.id@, expires, Some(app))
                }
            },
        }
    }
}

/// Mints an app session with the token that was drawn for it.
pub fn create_app_session_with(
    accounts: &mut Accounts,
    site_token: &str,
    app: &str,
    token: String,
    now: u64,
) -> (r: Result<(User, String, u64), String>)
    requires
        now <= LAST_TIME,
    ensures
        app_session_made(*old(accounts), *final(accounts), site_token@, app@, token@, now, r),
        old(accounts).wf() ==> final(accounts).wf(),
{
    if !valid_app_scope(app) {
        return Err("invalid app name".to_owned());
    }
    let (i, k) = match find_live(accounts, site_token, None, now) {
        Some(found) => found,
        None => {
            return Err("not signed in".to_owned());
        },
    };
    // Never outlives the site session it descends from — and a site session
    // with nothing left to lend hands back nothing, since `Max-Age=0` is a
    // deletion and the visitor would bounce between gate and handoff until it
    // finally expired.
    let site_expires: u64 = accounts.sessions[i].expires_at;
    let expires: u64 = if now + APP_SESSION_LIFETIME <= site_expires {
        now + APP_SESSION_LIFETIME
    } else {
        site_expires
    };
    if expires <= now {
        return Err("not signed in".to_owned());
    }
    let user = User {
        id: accounts.users[k].id.clone(),
        email: accounts.users[k].email.clone(),
        is_admin: accounts.users[k].is_admin,
    };
    match add_session(accounts, token.as_str(), user.id.as_str(), expires, Some(app)) {
        Ok(_) => Ok((user, token, expires - now)),
        Err(m) => Err(m),
    }
}

/// Mints a token good for one app, from a proven site session. Returns the
/// token and how long it lives, which is the cookie's `Max-Age`.
///
/// This is the only way an app session comes into being, and it takes a site
/// session to do it — an app session cannot mint another, so holding one for
/// one app is not a step towards holding one for the next.
pub fn create_app_session(
    accounts: &mut Accounts,
    site_token: &str,
    app: &str,
    now: u64,
) -> (r: Result<(User, String, u64), String>)
    requires
        now <= LAST_TIME,
    ensures
        exists|token: Seq<char>|
            is_drawn(token, 48) && #[trigger] app_session_made(
                *old(accounts),
                *final(accounts),
                site_token@,
                app@,
                token,
                now,
                r,
            ),
        old(accounts).wf() ==> final(accounts).wf(),
{
    let token = random_token(48);
    create_app_session_with(accounts, site_token, app, token, now)
}

/// Whether a session survives the signing out of a token: every app session of
/// the same person goes with it.
pub open spec fn survives(s: Session, token: Seq<char>, owner: Option<Seq<char>>) -> bool {
    &&& s.token_hash@ != token_hash(token)
    &&& !(s.scope is Some && owner == Some(s.user_id@))
}

/// The person a token belongs to, of any tier and in any state.
pub open spec fn owner_of(accounts: Accounts, token: Seq<char>) -> Option<Seq<char>> {
    match accounts.by_token(token) {
        Some(s) => Some(s.user_id@),
        None => None,
    }
}

/// Keeping rows of a well-formed table leaves it well-formed.
proof fn lemma_sessions_kept(before: Accounts, after: Accounts, fits: spec_fn(Session) -> bool)
    requires
        before.wf(),
        only_sessions_change(before, after),
        after.sessions@ == before.sessions@.filter(fits),
    ensures
        after.wf(),
{
    assert forall|i: int, j: int|
        #![trigger after.sessions@[i], after.sessions@[j]]
        0 <= i < j < after.sessions.len() implies after.sessions@[i].token_hash@
        != after.sessions@[j].token_hash@ by {
        let w = lemma_kept_order(before.sessions@, fits, i, j);
    }
}

/// An optional string's text.
pub open spec fn owned_text(s: &Option<String>) -> Option<Seq<char>> {
    match s {
        Some(s) => Some(s@),
        None => None,
    }
}

/// Signs out. Every app session this person holds descends from a site
/// session, and the browser will not send a `/p/<app>/`-scoped cookie to the
/// sign-out page for it to be cleared, so here is the only place they can die.
pub fn log_out(accounts: &mut Accounts, token: &str)
    ensures
        only_sessions_change(*old(accounts), *final(accounts)),
        final(accounts).sessions@ == old(accounts).sessions@.filter(
            |s: Session| survives(s, token@, owner_of(*old(accounts), token@)),
        ),
        old(accounts).wf() ==> final(accounts).wf(),
{
    let hash = hash_token(token);
    let test = |s: &Session| -> (b: bool)
        ensures
            b == (s.token_hash@ == token_hash(token@))
    {
        same(s.token_hash.as_str(), hash.as_str())
    };
    let found = find(
        &accounts.sessions,
        test,
        Ghost(|s: Session| s.token_hash@ == token_hash(token@)),
    );
    let owner: Option<String> = match found {
        Some(i) => Some(accounts.sessions[i].user_id.clone()),
        None => None,
    };
    let ghost who = owner_of(*old(accounts), token@);
    assert(owned_text(&owner) == who);
    let ghost fits = |s: Session| survives(s, token@, who);
    let stays = |s: &Session| -> (b: bool)
        ensures
            b == survives(*s, token@, owned_text(&owner))
    {
        let descends = match (&s.scope, &owner) {
            (Some(_), Some(id)) => same(s.user_id.as_str(), id.as_str()),
            _ => false,
        };
        !same(s.token_hash.as_str(), hash.as_str()) && !descends
    };
    keep(&mut accounts.sessions, stays, Ghost(fits));
    proof {
        if old(accounts).wf() {
            lemma_sessions_kept(*old(accounts), *accounts, fits);
        }
    }
}

/// Whether an optional user is the one of a live session.
pub open spec fn is_user(r: Option<User>, found: Option<(Session, Account)>) -> bool {
    match (r, found) {
        (Some(u), Some((_, a))) => u.id@ == a.id@ && u.email@ == a.email@ && u.is_admin
            == a.is_admin,
        (None, None) => true,
        _ => false,
    }
}

/// Who a token of a tier belongs to: nothing if the token is unknown, expired,
/// or of the wrong tier. Expired sessions are swept on the way.
pub fn session_user(accounts: &mut Accounts, token: &str, scope: Option<&str>, now: u64) -> (r:
    Option<User>)
    ensures
        is_user(r, live_session(*old(accounts), token@, opt_str(scope), now)),
        only_sessions_change(*old(accounts), *final(accounts)),
        final(accounts).sessions@ == old(accounts).sessions@.filter(
            |s: Session| s.expires_at >= now,
        ),
        old(accounts).wf() ==> final(accounts).wf(),
{
    let r = match find_live(accounts, token, scope, now) {
        Some((_, k)) => Some(
            User {
                id: accounts.users[k].id.clone(),
                email: accounts.users[k].email.clone(),
                is_admin: accounts.users[k].is_admin,
            },
        ),
        None => None,
    };
    let ghost fits = |s: Session| s.expires_at >= now;
    let stays = |s: &Session| -> (b: bool)
        ensures
            b == (s.expires_at >= now)
    {
        s.expires_at >= now
    };
    keep(&mut accounts.sessions, stays, Ghost(fits));
    proof {
        if old(accounts).wf() {
            lemma_sessions_kept(*old(accounts), *accounts, fits);
        }
    }
    r
}

/// Who a *site* session token belongs to. A token scoped to an app is not
/// accepted here: it proves the bearer reached one app, not that it may act
/// site-wide.
pub fn site_session_user(accounts: &mut Accounts, token: &str, now: u64) -> (r: Option<User>)
    ensures
        is_user(r, live_session(*old(accounts), token@, None, now)),
        only_sessions_change(*old(accounts), *final(accounts)),
        final(accounts).sessions@ == old(accounts).sessions@.filter(
            |s: Session| s.expires_at >= now,
        ),
        old(accounts).wf() ==> final(accounts).wf(),
{
    session_user(accounts, token, None, now)
}

/// Who an *app* session token belongs to, for that app alone. A token minted
/// for another app fails the scope test, which is the isolation this rests on
/// once a cookie has escaped its path by some other route.
pub fn app_session_user(accounts: &mut Accounts, token: &str, app: &str, now: u64) -> (r: Option<
    User,
>)
    ensures
        is_user(
            r,
            if is_scope(app@) {
                live_session(*old(accounts), token@, Some(app@), now)
            } else {
                None
            },
        ),
        only_sessions_change(*old(accounts), *final(accounts)),
        final(accounts).sessions@ == if is_scope(app@) {
            old(accounts).sessions@.filter(|s: Session| s.expires_at >= now)
        } else {
            old(accounts).sessions@
        },
        old(accounts).wf() ==> final(accounts).wf(),
{
    if !valid_app_scope(app) {
        return None;
    }
    session_user(accounts, token, Some(app), now)
}

/// Why there is no account to act on.
pub open spec fn no_account(email: Seq<char>) -> Seq<char> {
    "no account for "@ + normal(email)
}

/// Whether a grant is an account's on an app.
pub open spec fn is_grant(g: Grant, user_id: Seq<char>, app: Seq<char>) -> bool {
    g.user_id@ == user_id && g.app@ == app
}

/// Whether an account has a grant on an app.
pub open spec fn granted(accounts: Accounts, user_id: Seq<char>, app: Seq<char>) -> bool {
    first(accounts.grants@, |g: Grant| is_grant(g, user_id, app)) is Some
}

/// What granting does: the account's grant on the app has the role, and no
/// other grant changes.
pub open spec fn grant_made(
    before: Accounts,
    after: Accounts,
    user_id: Seq<char>,
    app: Seq<char>,
    role: Seq<char>,
) -> bool {
    let k = first_from(before.grants@, |g: Grant| is_grant(g, user_id, app), 0);
    &&& only_grants_change(before, after)
    &&& after.grants.len() == if k < before.grants.len() {
        before.grants.len() as int
    } else {
        before.grants.len() + 1
    }
    &&& forall|j: int|
        0 <= j < before.grants.len() && j != k ==> #[trigger] after.grants@[j] == before.grants@[j]
    &&& is_grant(after.grants@[k], user_id, app)
    &&& after.grants@[k].role@ == role
}

/// Whether a grant is there at all.
fn find_grant(accounts: &Accounts, user_id: &str, app: &str) -> (r: Option<usize>)
    ensures
        match r {
            Some(i) => i < accounts.grants.len() && is_grant(
                accounts.grants@[i as int],
                user_id@,
                app@,
            ) && i == first_from(accounts.grants@, |g: Grant| is_grant(g, user_id@, app@), 0)
                && granted(*accounts, user_id@, app@),
            None => !granted(*accounts, user_id@, app@) && accounts.grants.len() == first_from(
                accounts.grants@,
                |g: Grant| is_grant(g, user_id@, app@),
                0,
            ),
        },
{
    let test = |g: &Grant| -> (b: bool)
        ensures
            b == is_grant(*g, user_id@, app@)
    {
        same(g.user_id.as_str(), user_id) && same(g.app.as_str(), app)
    };
    find(&accounts.grants, test, Ghost(|g: Grant| is_grant(g, user_id@, app@)))
}

/// Gives an account access to an app, or another role there.
pub fn grant(accounts: &mut Accounts, email: &str, app: &str, role: &str) -> (r: Result<
    (),
    String,
>)
    ensures
        old(accounts).wf() ==> final(accounts).wf(),
        match r {
            Ok(_) => is_slug(app@) && old(accounts).by_email(normal(email@)) is Some && grant_made(
                *old(accounts),
                *final(accounts),
                old(accounts).by_email(normal(email@))->0.id@,
                app@,
                role@,
            ),
            Err(m) => *final(accounts) == *old(accounts) && if !is_slug(app@) {
                m@ == "invalid app name"@
            } else {
                old(accounts).by_email(normal(email@)) is None && m@ == no_account(email@)
            },
        },
{
    if !valid_slug(app) {
        return Err("invalid app name".to_owned());
    }
    let email = normalise(email);
    let i: usize = match find_email(accounts, email.as_str()) {
        Some(i) => i,
        None => {
            return Err("no account for ".to_owned().concat(email.as_str()));
        },
    };
    let user_id = accounts.users[i].id.clone();
    match find_grant(accounts, user_id.as_str(), app) {
        Some(k) => {
            let row = Grant { user_id, app: app.to_owned(), role: role.to_owned() };
            accounts.grants.set(k, row);
        },
        None => {
            proof {
                lemma_first(
                    accounts.grants@,
                    |g: Grant| is_grant(g, user_id@, app@),
                    0,
                );
                assert forall|j: int| 0 <= j < accounts.grants.len() implies !is_grant(
                    #[trigger] accounts.grants@[j],
                    user_id@,
                    app@,
                ) by {
                    let fits = |g: Grant| is_grant(g, user_id@, app@);
                    assert(!fits(accounts.grants@[j]));
                }
            }
            accounts.grants.push(
                Grant { user_id, app: app.to_owned(), role: role.to_owned() },
            );
        },
    }
    Ok(())
}

/// Whether a grant survives a revocation.
pub open spec fn outlives(g: Grant, user: Option<Account>, app: Seq<char>) -> bool {
    !(g.app@ == app && (user matches Some(a) && g.user_id@ == a.id@))
}

/// Takes an account's access to an app away, if it has it.
pub fn revoke(accounts: &mut Accounts, email: &str, app: &str)
    ensures
        only_grants_change(*old(accounts), *final(accounts)),
        final(accounts).grants@ == old(accounts).grants@.filter(
            |g: Grant| outlives(g, old(accounts).by_email(normal(email@)), app@),
        ),
        old(accounts).wf() ==> final(accounts).wf(),
{
    let email = normalise(email);
    let found = find_email(accounts, email.as_str());
    let id: String = match found {
        Some(i) => accounts.users[i].id.clone(),
        None => String::new(),
    };
    let known: bool = found.is_some();
    let ghost user = old(accounts).by_email(email@);
    let ghost fits = |g: Grant| outlives(g, user, app@);
    let stays = |g: &Grant| -> (b: bool)
        ensures
            b == !(g.app@ == app@ && known && g.user_id@ == id@)
    {
        !(same(g.app.as_str(), app) && known && same(g.user_id.as_str(), id.as_str()))
    };
    keep(&mut accounts.grants, stays, Ghost(fits));
    proof {
        if old(accounts).wf() {
            assert forall|i: int, j: int|
                #![trigger accounts.grants@[i], accounts.grants@[j]]
                0 <= i < j < accounts.grants.len() implies accounts.grants@[i].user_id@
                != accounts.grants@[j].user_id@ || accounts.grants@[i].app@
                != accounts.grants@[j].app@ by {
                let w = lemma_kept_order(old(accounts).grants@, fits, i, j);
            }
        }
    }
}

/// Whether a person has access to an app.
pub fn has_grant(accounts: &Accounts, user: &User, app: &str) -> (r: bool)
    ensures
        r == granted(*accounts, user.id@, app@),
{
    find_grant(accounts, user.id.as_str(), app).is_some()
}

/// The role that a person has in an app, where they have access to it.
pub fn role_in(accounts: &Accounts, user: &User, app: &str) -> (r: Option<String>)
    ensures
        match first(accounts.grants@, |g: Grant| is_grant(g, user.id@, app@)) {
            Some(g) => r matches Some(role) && role@ == g.role@,
            None => r is None,
        },
{
    match find_grant(accounts, user.id.as_str(), app) {
        Some(i) => Some(accounts.grants[i].role.clone()),
        None => None,
    }
}

/// What turning an account on or off does: turning it off also ends its
/// sessions.
pub open spec fn activity_set(before: Accounts, after: Accounts, k: int, active: bool) -> bool {
    &&& after.grants@ == before.grants@
    &&& after.invitations@ == before.invitations@
    &&& after.users@ == before.users@.update(
        k,
        (Account { is_active: active, ..before.users@[k] }),
    )
    &&& after.sessions@ == if active {
        before.sessions@
    } else {
        before.sessions@.filter(of_others(before.users@[k].id@))
    }
}

/// Turns an account off, which ends the sessions it already has, or on again.
/// Nothing else is destroyed, so the same password still works then.
pub fn set_active(accounts: &mut Accounts, email: &str, active: bool) -> (r: Result<(), String>)
    ensures
        old(accounts).wf() ==> final(accounts).wf(),
        match r {
            Ok(_) => old(accounts).by_email(normal(email@)) is Some && activity_set(
                *old(accounts),
                *final(accounts),
                first_from(old(accounts).users@, has_email(normal(email@)), 0),
                active,
            ),
            Err(m) => old(accounts).by_email(normal(email@)) is None && m@ == no_account(email@)
                && *final(accounts) == *old(accounts),
        },
{
    let email = normalise(email);
    let i: usize = match find_email(accounts, email.as_str()) {
        Some(i) => i,
        None => {
            return Err("no account for ".to_owned().concat(email.as_str()));
        },
    };
    let a = &accounts.users[i];
    let id = a.id.clone();
    let password_hash: Option<String> = match &a.password_hash {
        Some(h) => Some(h.clone()),
        None => None,
    };
    let row = Account {
        id: a.id.clone(),
        email: a.email.clone(),
        password_hash,
        created_at: a.created_at,
        is_admin: a.is_admin,
        is_active: active,
    };
    accounts.users.set(i, row);
    if !active {
        let ghost fits = of_others(id@);
        let ghost before = *accounts;
        let stays = |s: &Session| -> (b: bool)
            ensures
                b == (s.user_id@ != id@)
        {
            !same(s.user_id.as_str(), id.as_str())
        };
        keep(&mut accounts.sessions, stays, Ghost(fits));
        proof {
            if old(accounts).wf() {
                assert forall|i: int, j: int|
                    #![trigger accounts.sessions@[i], accounts.sessions@[j]]
                    0 <= i < j < accounts.sessions.len() implies accounts.sessions@[i].token_hash@
                    != accounts.sessions@[j].token_hash@ by {
                    let w = lemma_kept_order(before.sessions@, fits, i, j);
                }
            }
        }
    }
    Ok(())
}

/// The invitation of a token, while it works.
pub open spec fn live_invitation(
    accounts: Accounts,
    token: Seq<char>,
    now: u64,
) -> Option<Invitation> {
    first(
        accounts.invitations@,
        |v: Invitation| v.token_hash@ == token_hash(token) && v.expires_at >= now,
    )
}

/// Whether an invitation holds the given values.
pub open spec fn is_invitation(v: Invitation, user_id: Seq<char>, token: Seq<char>, now: u64) -> bool {
    &&& v.user_id@ == user_id
    &&& v.token_hash@ == token_hash(token)
    &&& v.expires_at == now + INVITE_LIFETIME
}

/// What handing out an invitation does: it replaces the one that was out.
pub open spec fn invitation_made(
    before: Accounts,
    after: Accounts,
    user_id: Seq<char>,
    token: Seq<char>,
    now: u64,
) -> bool {
    &&& after.sessions@ == before.sessions@
    &&& after.grants@ == before.grants@
    &&& after.invitations.len() > 0
    &&& after.invitations@.drop_last() == before.invitations@.filter(
        invites_others(user_id),
    )
    &&& is_invitation(after.invitations@.last(), user_id, token, now)
}

/// Hands out an invitation, in place of the one that was out.
fn put_invitation(accounts: &mut Accounts, user_id: &str, token: &str, now: u64)
    requires
        now <= LAST_TIME,
    ensures
        invitation_made(*old(accounts), *final(accounts), user_id@, token@, now),
        final(accounts).users@ == old(accounts).users@,
        old(accounts).wf() ==> final(accounts).wf(),
{
    let ghost fits = invites_others(user_id@);
    let stays = |v: &Invitation| -> (b: bool)
        ensures
            b == (v.user_id@ != user_id@)
    {
        !same(v.user_id.as_str(), user_id)
    };
    keep(&mut accounts.invitations, stays, Ghost(fits));
    let ghost kept = accounts.invitations@;
    accounts.invitations.push(
        Invitation {
            user_id: user_id.to_owned(),
            token_hash: hash_token(token),
            expires_at: now + INVITE_LIFETIME,
        },
    );
    proof {
        assert(accounts.invitations@.drop_last() =~= kept);
        lemma_kept(old(accounts).invitations@, fits);
        if old(accounts).wf() {
            assert forall|i: int, j: int|
                #![trigger accounts.invitations@[i], accounts.invitations@[j]]
                0 <= i < j < accounts.invitations.len() implies accounts.invitations@[i].user_id@
                != accounts.invitations@[j].user_id@ by {
                if j < kept.len() {
                    let w = lemma_kept_order(old(accounts).invitations@, fits, i, j);
                } else {
                    assert(fits(kept[i]));
                }
            }
        }
    }
}

/// What inviting someone does, given the id drawn for their account and the
/// token drawn for the link.
pub open spec fn invited(
    before: Accounts,
    after: Accounts,
    email: Seq<char>,
    is_admin: bool,
    id: Seq<char>,
    token: Seq<char>,
    now: u64,
    r: Result<(User, String), String>,
) -> bool {
    let email = normal(email);
    if !email.contains('@') || encode_utf8(email).len() < 3 {
        &&& r matches Err(m)
        &&& m@ == "that does not look like an email address"@
        &&& after == before
    } else if taken(before, id, email) {
        r matches Err(m) && m@ == "that email is already registered"@ && after == before
    } else {
        &&& r matches Ok((user, t))
        &&& user.id@ == id
        &&& user.email@ == email
        &&& user.is_admin == is_admin
        &&& t@ == token
        &&& after.users.len() == before.users.len() + 1
        &&& after.users@.drop_last() == before.users@
        &&& is_account(after.users@.last(), id, email, None, now, is_admin)
        &&& invitation_made(before, after, id, token, now)
    }
}

/// Makes an account that waits for its owner to choose a password, with the id
/// and the token that were drawn.
pub fn invite_with(
    accounts: &mut Accounts,
    email: &str,
    is_admin: bool,
    id: String,
    token: String,
    now: u64,
) -> (r: Result<(User, String), String>)
    requires
        now <= LAST_TIME,
    ensures
        invited(*old(accounts), *final(accounts), email@, is_admin, id@, token@, now, r),
        old(accounts).wf() ==> final(accounts).wf(),
{
    let email = normalise(email);
    if !contains_char(email.as_str(), '@') || email.as_str().as_bytes().len() < 3 {
        return Err("that does not look like an email address".to_owned());
    }
    let who = id.clone();
    match add_user(accounts, id, email, None, is_admin, now) {
        Err(m) => Err(m),
        Ok(user) => {
            proof {
                assert(accounts.users@.drop_last() =~= old(accounts).users@);
            }
            put_invitation(accounts, who.as_str(), token.as_str(), now);
            Ok((user, token))
        },
    }
}

/// Makes an account that waits for its owner to choose a password, and the
/// token of the link to do it with, which only chance decides.
pub fn invite(accounts: &mut Accounts, email: &str, is_admin: bool, now: u64) -> (r: Result<
    (User, String),
    String,
>)
    requires
        now <= LAST_TIME,
    ensures
        exists|id: Seq<char>, token: Seq<char>|
            is_drawn(id, 16) && is_drawn(token, 48) && #[trigger] invited(
                *old(accounts),
                *final(accounts),
                email@,
                is_admin,
                id,
                token,
                now,
                r,
            ),
        old(accounts).wf() ==> final(accounts).wf(),
{
    let id = random_token(16);
    let token = random_token(48);
    invite_with(accounts, email, is_admin, id, token, now)
}

/// Hands an account a fresh link with the token that was drawn: the one that
/// was out dies.
pub fn reinvite_with(accounts: &mut Accounts, email: &str, token: String, now: u64) -> (r: Result<
    String,
    String,
>)
    requires
        now <= LAST_TIME,
    ensures
        old(accounts).wf() ==> final(accounts).wf(),
        final(accounts).users@ == old(accounts).users@,
        match r {
            Ok(t) => {
                &&& t@ == token@
                &&& old(accounts).by_email(normal(email@)) is Some
                &&& invitation_made(
                    *old(accounts),
                    *final(accounts),
                    old(accounts).by_email(normal(email@))->0.id@,
                    token@,
                    now,
                )
            },
            Err(m) => old(accounts).by_email(normal(email@)) is None && m@ == no_account(email@)
                && *final(accounts) == *old(accounts),
        },
{
    let email = normalise(email);
    let i: usize = match find_email(accounts, email.as_str()) {
        Some(i) => i,
        None => {
            return Err("no account for ".to_owned().concat(email.as_str()));
        },
    };
    let id = accounts.users[i].id.clone();
    put_invitation(accounts, id.as_str(), token.as_str(), now);
    Ok(token)
}

/// Hands an account a fresh link: the one that was out dies.
pub fn reinvite(accounts: &mut Accounts, email: &str, now: u64) -> (r: Result<String, String>)
    requires
        now <= LAST_TIME,
    ensures
        old(accounts).wf() ==> final(accounts).wf(),
        final(accounts).users@ == old(accounts).users@,
        match r {
            Ok(t) => {
                &&& is_drawn(t@, 48)
                &&& old(accounts).by_email(normal(email@)) is Some
                &&& invitation_made(
                    *old(accounts),
                    *final(accounts),
                    old(accounts).by_email(normal(email@))->0.id@,
                    t@,
                    now,
                )
            },
            Err(m) => old(accounts).by_email(normal(email@)) is None && m@ == no_account(email@)
                && *final(accounts) == *old(accounts),
        },
{
    let token = random_token(48);
    reinvite_with(accounts, email, token, now)
}

/// The invitation of a token, while it works.
fn find_invitation(accounts: &Accounts, token: &str, now: u64) -> (r: Option<usize>)
    ensures
        match r {
            Some(i) => i < accounts.invitations.len() && live_invitation(*accounts, token@, now)
                == Some(accounts.invitations@[i as int]),
            None => live_invitation(*accounts, token@, now) is None,
        },
{
    let hash = hash_token(token);
    let test = |v: &Invitation| -> (b: bool)
        ensures
            b == (v.token_hash@ == token_hash(token@) && v.expires_at >= now)
    {
        same(v.token_hash.as_str(), hash.as_str()) && v.expires_at >= now
    };
    find(
        &accounts.invitations,
        test,
        Ghost(|v: Invitation| v.token_hash@ == token_hash(token@) && v.expires_at >= now),
    )
}

/// Who an invitation is for, so the form can name them.
pub open spec fn invitee_of(accounts: Accounts, token: Seq<char>, now: u64) -> Option<Account> {
    match live_invitation(accounts, token, now) {
        Some(v) => accounts.by_id(v.user_id@),
        None => None,
    }
}

/// Who an invitation is for, so the form can name them.
pub fn invitee(accounts: &Accounts, token: &str, now: u64) -> (r: Option<User>)
    ensures
        match (r, invitee_of(*accounts, token@, now)) {
            (Some(u), Some(a)) => u.id@ == a.id@ && u.email@ == a.email@ && u.is_admin
                == a.is_admin,
            (None, None) => true,
            _ => false,
        },
{
    match find_invitation(accounts, token, now) {
        None => None,
        Some(i) => match find_account(accounts, accounts.invitations[i].user_id.as_str()) {
            None => None,
            Some(k) => Some(
                User {
                    id: accounts.users[k].id.clone(),
                    email: accounts.users[k].email.clone(),
                    is_admin: accounts.users[k].is_admin,
                },
            ),
        },
    }
}

/// The one message for an invitation that does not work.
pub open spec fn no_invitation() -> Seq<char> {
    "that link has expired or was already used"@
}

/// What accepting an invitation does, given the salt of the password and the
/// token drawn for the session: the password is set, the invitation is gone,
/// and a session begins.
pub open spec fn accepted_invitation(
    before: Accounts,
    after: Accounts,
    token: Seq<char>,
    password: Seq<char>,
    salt: Seq<u8>,
    session: Seq<char>,
    now: u64,
    r: Result<(User, String), String>,
) -> bool {
    match invitee_of(before, token, now) {
        None => r matches Err(m) && m@ == no_invitation() && after == before,
        Some(a) => if password.len() < 8 {
            &&& r matches Err(m)
            &&& m@ == "password must be at least 8 characters"@
            &&& after == before
        } else {
            match argon2_hash(password, salt) {
                Err(why) => r matches Err(m) && m@ == why && after == before,
                Ok(hash) => if known_token(before, session) {
                    r is Err && after == before
                } else {
                    let k = first_from(before.users@, has_id(a.id@), 0);
                    &&& r matches Ok((user, t))
                    &&& user.id@ == a.id@
                    &&& user.email@ == a.email@
                    &&& user.is_admin == a.is_admin
                    &&& t@ == session
                    &&& after.grants@ == before.grants@
                    &&& after.invitations@ == before.invitations@.filter(
                        invites_others(a.id@),
                    )
                    &&& after.users.len() == before.users.len()
                    &&& forall|j: int|
                        0 <= j < before.users.len() && j != k ==> #[trigger] after.users@[j]
                            == before.users@[j]
                    &&& after.users@[k].id@ == a.id@
                    &&& after.users@[k].email@ == a.email@
                    &&& after.users@[k].is_admin == a.is_admin
                    &&& after.users@[k].is_active == a.is_active
                    &&& after.users@[k].created_at == a.created_at
                    &&& scope_is(after.users@[k].password_hash, Some(hash))
                    &&& accepted(password_check(hash, password))
                    &&& after.sessions.len() == before.sessions.len() + 1
                    &&& after.sessions@.drop_last() == before.sessions@
                    &&& is_session(
                        after.sessions@.last(),
                        session,
                        a.id@,
                        (now + SESSION_LIFETIME) as u64,
                        None,
                    )
                },
            }
        },
    }
}

/// Accepts an invitation with the salt and the session token that were drawn.
pub fn accept_with(
    accounts: &mut Accounts,
    token: &str,
    password: &str,
    salt: &Vec<u8>,
    session: String,
    now: u64,
) -> (r: Result<(User, String), String>)
    requires
        now <= LAST_TIME,
        salt.len() == 16,
    ensures
        accepted_invitation(
            *old(accounts),
            *final(accounts),
            token@,
            password@,
            salt@,
            session@,
            now,
            r,
        ),
        old(accounts).wf() ==> final(accounts).wf(),
{
    let i: usize = match find_invitation(accounts, token, now) {
        Some(i) => i,
        None => {
            return Err("that link has expired or was already used".to_owned());
        },
    };
    let k: usize = match find_account(accounts, accounts.invitations[i].user_id.as_str()) {
        Some(k) => k,
        None => {
            return Err("that link has expired or was already used".to_owned());
        },
    };
    if to_chars(password).len() < 8 {
        return Err("password must be at least 8 characters".to_owned());
    }
    let hash = match hash_password(password, salt) {
        Ok(hash) => hash,
        Err(m) => {
            return Err(m);
        },
    };
    let user = User {
        id: accounts.users[k].id.clone(),
        email: accounts.users[k].email.clone(),
        is_admin: accounts.users[k].is_admin,
    };
    if let Err(m) = add_session(
        accounts,
        session.as_str(),
        user.id.as_str(),
        now + SESSION_LIFETIME,
        None,
    ) {
        return Err(m);
    }
    let a = &accounts.users[k];
    let row = Account {
        id: a.id.clone(),
        email: a.email.clone(),
        password_hash: Some(hash),
        created_at: a.created_at,
        is_admin: a.is_admin,
        is_active: a.is_active,
    };
    accounts.users.set(k, row);
    let ghost fits = invites_others(user.id@);
    let stays = |v: &Invitation| -> (b: bool)
        ensures
            b == (v.user_id@ != user.id@)
    {
        !same(v.user_id.as_str(), user.id.as_str())
    };
    keep(&mut accounts.invitations, stays, Ghost(fits));
    proof {
        if old(accounts).wf() {
            assert forall|i: int, j: int|
                #![trigger accounts.invitations@[i], accounts.invitations@[j]]
                0 <= i < j < accounts.invitations.len() implies accounts.invitations@[i].user_id@
                != accounts.invitations@[j].user_id@ by {
                let w = lemma_kept_order(old(accounts).invitations@, fits, i, j);
            }
        }
    }
    Ok((user, session))
}

/// The position of the account of an id.
fn find_account(accounts: &Accounts, id: &str) -> (r: Option<usize>)
    ensures
        match r {
            Some(i) => i < accounts.users.len() && accounts.by_id(id@) == Some(
                accounts.users@[i as int],
            ) && accounts.users@[i as int].id@ == id@ && i == first_from(
                accounts.users@,
                has_id(id@),
                0,
            ),
            None => accounts.by_id(id@) is None,
        },
{
    let test = |u: &Account| -> (b: bool)
        ensures
            b == (u.id@ == id@)
    {
        same(u.id.as_str(), id)
    };
    find(&accounts.users, test, Ghost(has_id(id@)))
}

/// Accepts an invitation: whoever holds the link chooses the password and is
/// signed in, since asking for the password again would be theatre.
pub fn accept(accounts: &mut Accounts, token: &str, password: &str, now: u64) -> (r: Result<
    (User, String),
    String,
>)
    requires
        now <= LAST_TIME,
    ensures
        exists|salt: Seq<u8>, session: Seq<char>|
            salt.len() == 16 && is_drawn(session, 48) && #[trigger] accepted_invitation(
                *old(accounts),
                *final(accounts),
                token@,
                password@,
                salt,
                session,
                now,
                r,
            ),
        old(accounts).wf() ==> final(accounts).wf(),
{
    let salt = random_bytes(16);
    let session = random_token(48);
    accept_with(accounts, token, password, &salt, session, now)
}

} // verus!
