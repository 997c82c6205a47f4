//! What holds of accounts and sessions as a whole.
use crate::accounts::rows::{first, first_from, lemma_first, lemma_kept, lemma_only};
use crate::accounts::users::{
    accepted_invitation, activity_set, app_session_made, grant_made, granted, has_email, has_id,
    invitation_made, invited, invitee_of, invites_others, is_grant, is_live, is_scope, known_token,
    live_invitation, live_session, logged_in, no_entry, no_invitation, normal, of_others,
    only_grants_change, only_sessions_change, outlives, owner_of, scope_is, signed_up, survives,
    Account, Accounts, Grant, Invitation, LAST_TIME, Session, SESSION_LIFETIME, User,
};
use crate::crypto::{accepted, password_check, token_hash};
use vstd::prelude::*;

verus! {

/// Where a live session stands.
proof fn lemma_live(
    accounts: Accounts,
    token: Seq<char>,
    scope: Option<Seq<char>>,
    now: u64,
) -> (i: int)
    requires
        live_session(accounts, token, scope, now) is Some,
    ensures
        0 <= i < accounts.sessions.len(),
        live_session(accounts, token, scope, now) matches Some((s, _)) && accounts.sessions@[i] == s,
        is_live(accounts.sessions@[i], token, scope, now),
{
    let fits = |s: Session| is_live(s, token, scope, now);
    lemma_first(accounts.sessions@, fits, 0);
    let i = first_from(accounts.sessions@, fits, 0);
    assert(fits(accounts.sessions@[i]));
    i
}

/// A token speaks for one tier only: whatever scope it is live for, it is live
/// for no other.
proof fn lemma_one_scope(
    accounts: Accounts,
    token: Seq<char>,
    a: Option<Seq<char>>,
    b: Option<Seq<char>>,
    now: u64,
)
    requires
        accounts.wf(),
        a != b,
        live_session(accounts, token, a, now) is Some,
    ensures
        live_session(accounts, token, b, now) is None,
{
    if live_session(accounts, token, b, now) is Some {
        let i = lemma_live(accounts, token, a, now);
        let j = lemma_live(accounts, token, b, now);
        if i < j {
            assert(accounts.sessions@[i].token_hash@ != accounts.sessions@[j].token_hash@);
        } else if j < i {
            assert(accounts.sessions@[j].token_hash@ != accounts.sessions@[i].token_hash@);
        }
    }
}

/// The tiers are separate credentials, not two names for one: a site session is
/// no app session, and an app session is no site session.
pub proof fn tiers_are_separate(accounts: Accounts, token: Seq<char>, app: Seq<char>, now: u64)
    requires
        accounts.wf(),
    ensures
        live_session(accounts, token, None, now) is Some ==> live_session(
            accounts,
            token,
            Some(app),
            now,
        ) is None,
        live_session(accounts, token, Some(app), now) is Some ==> live_session(
            accounts,
            token,
            None,
            now,
        ) is None,
{
    if live_session(accounts, token, None, now) is Some {
        lemma_one_scope(accounts, token, None, Some(app), now);
    }
    if live_session(accounts, token, Some(app), now) is Some {
        lemma_one_scope(accounts, token, Some(app), None, now);
    }
}

/// An app session only speaks for its own app.
pub proof fn app_session_is_confined(
    accounts: Accounts,
    token: Seq<char>,
    app: Seq<char>,
    other: Seq<char>,
    now: u64,
)
    requires
        accounts.wf(),
        app != other,
        live_session(accounts, token, Some(app), now) is Some,
    ensures
        live_session(accounts, token, Some(other), now) is None,
{
    lemma_one_scope(accounts, token, Some(app), Some(other), now);
}

/// An app session cannot mint another: reaching one app is no step towards
/// reaching the next.
pub proof fn app_session_mints_nothing(
    before: Accounts,
    after: Accounts,
    token: Seq<char>,
    app: Seq<char>,
    other: Seq<char>,
    minted: Seq<char>,
    now: u64,
    r: Result<(User, String, u64), String>,
)
    requires
        before.wf(),
        live_session(before, token, Some(app), now) is Some,
        app_session_made(before, after, token, other, minted, now, r),
    ensures
        r is Err,
        after == before,
{
    tiers_are_separate(before, token, app, now);
}

/// An app session never outlives the site session it descends from, and is for
/// the app that was asked for and for the same person.
pub proof fn app_session_descends(
    before: Accounts,
    after: Accounts,
    site_token: Seq<char>,
    app: Seq<char>,
    minted: Seq<char>,
    now: u64,
    r: Result<(User, String, u64), String>,
)
    requires
        app_session_made(before, after, site_token, app, minted, now, r),
        r is Ok,
    ensures
        is_scope(app),
        live_session(before, site_token, None, now) is Some,
        ({
            let found = live_session(before, site_token, None, now)->0;
            let site = found.0;
            let made = after.sessions@.last();
            &&& made.expires_at <= site.expires_at
            &&& scope_is(made.scope, Some(app))
            &&& r->Ok_0.2 <= site.expires_at - now
            &&& r->Ok_0.2 > 0
            &&& made.token_hash@ == token_hash(minted)
        }),
{
}

/// What an app session admits to once it is made: its own app, until it ends.
pub proof fn minted_session_works(
    before: Accounts,
    after: Accounts,
    site_token: Seq<char>,
    app: Seq<char>,
    minted: Seq<char>,
    now: u64,
    later: u64,
    r: Result<(User, String, u64), String>,
)
    requires
        before.wf(),
        app_session_made(before, after, site_token, app, minted, now, r),
        r is Ok,
        later <= now + r->Ok_0.2,
    ensures
        live_session(after, minted, Some(app), later) matches Some((_, a)) && a.id@
            == r->Ok_0.0.id@,
{
    let i = lemma_live(before, site_token, None, now);
    let found = live_session(before, site_token, None, now)->0;
    let user = found.1;
    lemma_added_session(before, after, minted, Some(app), later);
    let fits = has_id(before.sessions@[i].user_id@);
    lemma_first(before.users@, fits, 0);
    assert(fits(user));
    assert(after.sessions@.last().user_id@ == before.sessions@[i].user_id@);
}

/// A session that was just added is the one its token finds.
proof fn lemma_added_session(
    before: Accounts,
    after: Accounts,
    token: Seq<char>,
    scope: Option<Seq<char>>,
    now: u64,
)
    requires
        after.sessions.len() == before.sessions.len() + 1,
        after.sessions@.drop_last() == before.sessions@,
        !known_token(before, token),
        is_live(after.sessions@.last(), token, scope, now),
    ensures
        first(after.sessions@, |s: Session| is_live(s, token, scope, now)) == Some(
            after.sessions@.last(),
        ),
{
    let fits = |s: Session| is_live(s, token, scope, now);
    let k = after.sessions.len() - 1;
    assert forall|j: int| 0 <= j < k implies !fits(#[trigger] after.sessions@[j]) by {
        assert(after.sessions@.drop_last()[j] == after.sessions@[j]);
        assert(before.sessions@[j].token_hash@ != token_hash(token));
    }
    lemma_only(after.sessions@, fits, k);
}

/// Signing out takes every app session of the person with it, and the session
/// itself, whatever its tier.
pub proof fn signing_out_ends_everything(
    before: Accounts,
    after: Accounts,
    token: Seq<char>,
    other: Seq<char>,
    scope: Option<Seq<char>>,
    now: u64,
)
    requires
        only_sessions_change(before, after),
        after.sessions@ == before.sessions@.filter(
            |s: Session| survives(s, token, owner_of(before, token)),
        ),
    ensures
        live_session(after, token, scope, now) is None,
        live_session(after, other, scope, now) matches Some((s, _)) ==> scope is None || owner_of(
            before,
            token,
        ) != Some(s.user_id@),
{
    let fits = |s: Session| survives(s, token, owner_of(before, token));
    lemma_kept(before.sessions@, fits);
    if live_session(after, token, scope, now) is Some {
        let i = lemma_live(after, token, scope, now);
        assert(fits(after.sessions@[i]));
    }
    if live_session(after, other, scope, now) is Some {
        let i = lemma_live(after, other, scope, now);
        assert(fits(after.sessions@[i]));
    }
}

/// A token that no session was stored under opens nothing.
pub proof fn invented_token_is_worthless(
    accounts: Accounts,
    token: Seq<char>,
    scope: Option<Seq<char>>,
    now: u64,
)
    requires
        !known_token(accounts, token),
    ensures
        live_session(accounts, token, scope, now) is None,
{
    if live_session(accounts, token, scope, now) is Some {
        let i = lemma_live(accounts, token, scope, now);
    }
}

/// A session stops working once it has expired.
pub proof fn expired_session_is_dead(
    accounts: Accounts,
    token: Seq<char>,
    scope: Option<Seq<char>>,
    now: u64,
)
    requires
        forall|i: int|
            #![trigger accounts.sessions@[i]]
            0 <= i < accounts.sessions.len() && accounts.sessions@[i].token_hash@ == token_hash(
                token,
            ) ==> accounts.sessions@[i].expires_at < now,
    ensures
        live_session(accounts, token, scope, now) is None,
{
    if live_session(accounts, token, scope, now) is Some {
        let i = lemma_live(accounts, token, scope, now);
    }
}

/// A new account can sign in with the password it was made with, and the
/// session that gives is a site session of that account until it ends.
pub proof fn sign_up_then_log_in(
    before: Accounts,
    made: Accounts,
    after: Accounts,
    email: Seq<char>,
    password: Seq<char>,
    is_admin: bool,
    id: Seq<char>,
    salt: Seq<u8>,
    token: Seq<char>,
    then: u64,
    now: u64,
    later: u64,
    r: Result<User, String>,
    s: Result<(User, String), String>,
)
    requires
        signed_up(before, made, email, password, is_admin, id, salt, then, r),
        r is Ok,
        accepted(password_check(made.users@.last().password_hash->0@, password)),
        logged_in(made, after, email, password, token, now, s),
        !known_token(made, token),
        now <= LAST_TIME,
        later <= now + SESSION_LIFETIME,
    ensures
        s is Ok,
        s->Ok_0.0.id@ == r->Ok_0.id@,
        s->Ok_0.0.email@ == normal(email),
        live_session(after, token, None, later) matches Some((_, a)) && a.id@ == id && a.email@
            == normal(email),
{
    let k = made.users.len() - 1;
    let e = normal(email);
    assert forall|j: int| 0 <= j < k implies !(has_email(e))(#[trigger] made.users@[j]) && !(has_id(
        id,
    ))(made.users@[j]) by {
        assert(made.users@.drop_last()[j] == before.users@[j]);
    }
    lemma_only(made.users@, has_email(e), k);
    lemma_only(made.users@, has_id(id), k);
    lemma_added_session(made, after, token, None, later);
}

/// The same message is given whether the email is unknown or the password is
/// wrong, so an attacker does not learn which accounts exist.
pub proof fn wrong_password_and_unknown_account_look_alike(
    a: Accounts,
    a2: Accounts,
    b: Accounts,
    b2: Accounts,
    known: Seq<char>,
    unknown: Seq<char>,
    p: Seq<char>,
    q: Seq<char>,
    token: Seq<char>,
    other: Seq<char>,
    now: u64,
    r: Result<(User, String), String>,
    s: Result<(User, String), String>,
)
    requires
        a.by_email(normal(known)) matches Some(u) && (u.password_hash matches Some(h) ==> (
        password_check(h@, p) matches Ok(right) && !right)),
        b.by_email(normal(unknown)) is None,
        logged_in(a, a2, known, p, token, now, r),
        logged_in(b, b2, unknown, q, other, now, s),
    ensures
        r matches Err(m) && s matches Err(n) && m@ == n@,
        a2 == a,
        b2 == b,
{
}

/// Case and spacing of an email do not make a second account.
pub proof fn one_account_per_email(
    before: Accounts,
    after: Accounts,
    email: Seq<char>,
    password: Seq<char>,
    is_admin: bool,
    id: Seq<char>,
    salt: Seq<u8>,
    now: u64,
    r: Result<User, String>,
)
    requires
        before.by_email(normal(email)) is Some,
        signed_up(before, after, email, password, is_admin, id, salt, now, r),
    ensures
        r is Err,
        after == before,
{
    lemma_first(before.users@, has_email(normal(email)), 0);
    let k = first_from(before.users@, has_email(normal(email)), 0);
    assert((has_email(normal(email)))(before.users@[k]));
    assert(before.users@[k].email@ == normal(email));
}

/// Turning an account off ends every session it has, of either tier, and keeps
/// it from signing in.
pub proof fn disabling_ends_sessions(
    before: Accounts,
    after: Accounts,
    email: Seq<char>,
    token: Seq<char>,
    scope: Option<Seq<char>>,
    now: u64,
)
    requires
        before.wf(),
        before.by_email(normal(email)) is Some,
        activity_set(
            before,
            after,
            first_from(before.users@, has_email(normal(email)), 0),
            false,
        ),
    ensures
        live_session(after, token, scope, now) matches Some((_, a)) ==> a.id@ != before.by_email(
            normal(email),
        )->0.id@,
        after.by_email(normal(email)) matches Some(a) && !a.is_active,
{
    let k = first_from(before.users@, has_email(normal(email)), 0);
    lemma_first(before.users@, has_email(normal(email)), 0);
    let id = before.users@[k].id@;
    lemma_kept(before.sessions@, of_others(id));
    if let Some((s, a)) = live_session(after, token, scope, now) {
        let i = lemma_live(after, token, scope, now);
        assert((of_others(id))(after.sessions@[i]));
        lemma_first(after.users@, has_id(s.user_id@), 0);
        let j = first_from(after.users@, has_id(s.user_id@), 0);
        assert((has_id(s.user_id@))(after.users@[j]));
        assert(a == after.users@[j]);
    }
    assert forall|j: int| 0 <= j < k implies !(has_email(normal(email)))(
        #[trigger] after.users@[j],
    ) by {
        assert(after.users@[j] == before.users@[j]);
        assert(!(has_email(normal(email)))(before.users@[j]));
    }
    assert((has_email(normal(email)))(before.users@[k]));
    lemma_only(after.users@, has_email(normal(email)), k);
}

/// A disabled account, and one that still waits for its password, cannot sign
/// in, whatever is tried.
pub proof fn no_entry_without_an_active_password(
    before: Accounts,
    after: Accounts,
    email: Seq<char>,
    password: Seq<char>,
    token: Seq<char>,
    now: u64,
    r: Result<(User, String), String>,
)
    requires
        before.by_email(normal(email)) matches Some(a) && (!a.is_active || a.password_hash is None),
        logged_in(before, after, email, password, token, now, r),
    ensures
        r matches Err(m) && m@ == no_entry(),
        after == before,
{
}

/// Turning an account off and on again leaves its password as it was: whoever
/// could sign in before can sign in after.
pub proof fn enabling_restores(
    before: Accounts,
    off: Accounts,
    on: Accounts,
    email: Seq<char>,
)
    requires
        before.by_email(normal(email)) is Some,
        activity_set(before, off, first_from(before.users@, has_email(normal(email)), 0), false),
        activity_set(off, on, first_from(off.users@, has_email(normal(email)), 0), true),
    ensures
        on.by_email(normal(email)) matches Some(a) && a == (Account {
            is_active: true,
            ..before.by_email(normal(email))->0
        }),
        on.grants@ == before.grants@,
{
    let fits = has_email(normal(email));
    lemma_first(before.users@, fits, 0);
    let k = first_from(before.users@, fits, 0);
    assert(fits(before.users@[k]));
    assert forall|j: int| 0 <= j < k implies !fits(#[trigger] off.users@[j]) by {
        assert(off.users@[j] == before.users@[j]);
        assert(!fits(before.users@[j]));
    }
    lemma_first(off.users@, fits, 0);
    let m = first_from(off.users@, fits, 0);
    assert(fits(off.users@[k]));
    assert(m == k);
    assert forall|j: int| 0 <= j < k implies !fits(#[trigger] on.users@[j]) by {
        assert(on.users@[j] == off.users@[j]);
        assert(!fits(off.users@[j]));
    }
    lemma_only(on.users@, fits, k);
}

/// A grant on one app says nothing about another, and revoking it undoes it.
pub proof fn grants_are_per_app(
    before: Accounts,
    after: Accounts,
    user_id: Seq<char>,
    app: Seq<char>,
    role: Seq<char>,
    someone: Seq<char>,
    other: Seq<char>,
)
    requires
        grant_made(before, after, user_id, app, role),
    ensures
        granted(after, user_id, app),
        someone != user_id || other != app ==> granted(after, someone, other) == granted(
            before,
            someone,
            other,
        ),
{
    let fits = |g: Grant| is_grant(g, user_id, app);
    lemma_first(before.grants@, fits, 0);
    let k = first_from(before.grants@, fits, 0);
    lemma_first(after.grants@, fits, 0);
    assert(fits(after.grants@[k]));
    if someone != user_id || other != app {
        let theirs = |g: Grant| is_grant(g, someone, other);
        lemma_first(before.grants@, theirs, 0);
        lemma_first(after.grants@, theirs, 0);
        let i = first_from(before.grants@, theirs, 0);
        let j = first_from(after.grants@, theirs, 0);
        if i < before.grants.len() {
            assert(theirs(before.grants@[i]));
            if i == k {
                assert(fits(before.grants@[k]));
            }
            assert(after.grants@[i] == before.grants@[i]);
            assert(theirs(after.grants@[i]));
        }
        if j < after.grants.len() {
            assert(theirs(after.grants@[j]));
            assert(j != k);
            assert(after.grants@[j] == before.grants@[j]);
            assert(theirs(before.grants@[j]));
        }
    }
}

/// What revoking undoes: the grant is gone, and no other.
pub proof fn revoking_is_exact(
    before: Accounts,
    after: Accounts,
    email: Seq<char>,
    app: Seq<char>,
    someone: Seq<char>,
    other: Seq<char>,
)
    requires
        only_grants_change(before, after),
        after.grants@ == before.grants@.filter(
            |g: Grant| outlives(g, before.by_email(normal(email)), app),
        ),
    ensures
        before.by_email(normal(email)) matches Some(a) ==> !granted(after, a.id@, app),
        (before.by_email(normal(email)) matches Some(a) ==> someone != a.id@ || other != app)
            ==> granted(after, someone, other) == granted(before, someone, other),
{
    let user = before.by_email(normal(email));
    let fits = |g: Grant| outlives(g, user, app);
    lemma_kept(before.grants@, fits);
    if let Some(a) = user {
        let mine = |g: Grant| is_grant(g, a.id@, app);
        lemma_first(after.grants@, mine, 0);
        let j = first_from(after.grants@, mine, 0);
        if j < after.grants.len() {
            assert(mine(after.grants@[j]));
            assert(fits(after.grants@[j]));
        }
    }
    let theirs = |g: Grant| is_grant(g, someone, other);
    lemma_first(before.grants@, theirs, 0);
    lemma_first(after.grants@, theirs, 0);
    let i = first_from(before.grants@, theirs, 0);
    let j = first_from(after.grants@, theirs, 0);
    if user matches Some(a) ==> someone != a.id@ || other != app {
        if i < before.grants.len() {
            let g = before.grants@[i];
            assert(theirs(g));
            assert(fits(g));
            assert(before.grants@.contains(g));
            assert(after.grants@.contains(g));
            let m = after.grants@.index_of(g);
            assert(theirs(after.grants@[m]));
        }
        if j < after.grants.len() {
            let g = after.grants@[j];
            assert(theirs(g));
            assert(before.grants@.contains(g));
            let m = before.grants@.index_of(g);
            assert(theirs(before.grants@[m]));
        }
    }
}

/// A link works until it is used or replaced: whoever is invited is the one the
/// link names.
pub proof fn invitation_names_its_account(
    before: Accounts,
    after: Accounts,
    email: Seq<char>,
    is_admin: bool,
    id: Seq<char>,
    token: Seq<char>,
    now: u64,
    later: u64,
    r: Result<(User, String), String>,
)
    requires
        invited(before, after, email, is_admin, id, token, now, r),
        r is Ok,
        later <= now + crate::accounts::users::INVITE_LIFETIME,
        forall|i: int|
            #![trigger before.invitations@[i]]
            0 <= i < before.invitations.len() ==> before.invitations@[i].token_hash@ != token_hash(
                token,
            ),
    ensures
        invitee_of(after, token, later) matches Some(a) && a.id@ == id && a.email@ == normal(email),
{
    let fits = |v: Invitation| v.token_hash@ == token_hash(token) && v.expires_at >= later;
    let k = after.invitations.len() - 1;
    lemma_kept(before.invitations@, invites_others(id));
    assert forall|j: int| 0 <= j < k implies !fits(#[trigger] after.invitations@[j]) by {
        let v = after.invitations@.drop_last()[j];
        assert(before.invitations@.contains(v));
        let m = before.invitations@.index_of(v);
        assert(before.invitations@[m].token_hash@ != token_hash(token));
    }
    lemma_only(after.invitations@, fits, k);
    let n = after.users.len() - 1;
    assert forall|j: int| 0 <= j < n implies !(has_id(id))(#[trigger] after.users@[j]) by {
        assert(after.users@.drop_last()[j] == before.users@[j]);
    }
    lemma_only(after.users@, has_id(id), n);
}

/// An invitation works exactly once: when it has been accepted, its token is
/// refused, so nobody can replay the link to change the password.
pub proof fn invitation_works_once(
    before: Accounts,
    after: Accounts,
    again: Accounts,
    token: Seq<char>,
    p: Seq<char>,
    q: Seq<char>,
    salt: Seq<u8>,
    pepper: Seq<u8>,
    session: Seq<char>,
    other: Seq<char>,
    now: u64,
    later: u64,
    r: Result<(User, String), String>,
    s: Result<(User, String), String>,
)
    requires
        forall|i: int, j: int|
            #![trigger before.invitations@[i], before.invitations@[j]]
            0 <= i < before.invitations.len() && 0 <= j < before.invitations.len()
                && before.invitations@[i].token_hash@ == before.invitations@[j].token_hash@
                ==> before.invitations@[i].user_id@ == before.invitations@[j].user_id@,
        accepted_invitation(before, after, token, p, salt, session, now, r),
        r is Ok,
        accepted_invitation(after, again, token, q, pepper, other, later, s),
    ensures
        s matches Err(m) && m@ == no_invitation(),
        again == after,
{
    let mine = |v: Invitation| v.token_hash@ == token_hash(token) && v.expires_at >= now;
    lemma_first(before.invitations@, mine, 0);
    let i = first_from(before.invitations@, mine, 0);
    assert(mine(before.invitations@[i]));
    let v = before.invitations@[i];
    lemma_first(before.users@, has_id(v.user_id@), 0);
    let k = first_from(before.users@, has_id(v.user_id@), 0);
    assert((has_id(v.user_id@))(before.users@[k]));
    let id = before.users@[k].id@;
    lemma_kept(before.invitations@, invites_others(id));
    let then = |v: Invitation| v.token_hash@ == token_hash(token) && v.expires_at >= later;
    lemma_first(after.invitations@, then, 0);
    let j = first_from(after.invitations@, then, 0);
    if j < after.invitations.len() {
        let w = after.invitations@[j];
        assert(then(w));
        assert((invites_others(id))(w));
        assert(before.invitations@.contains(w));
        let m = before.invitations@.index_of(w);
        assert(before.invitations@[m].token_hash@ == before.invitations@[i].token_hash@);
    }
}

/// Handing out a fresh link kills the one that was out.
pub proof fn fresh_link_replaces_the_old(
    before: Accounts,
    after: Accounts,
    user_id: Seq<char>,
    old_token: Seq<char>,
    token: Seq<char>,
    now: u64,
    later: u64,
)
    requires
        invitation_made(before, after, user_id, token, now),
        token_hash(old_token) != token_hash(token),
        forall|i: int|
            #![trigger before.invitations@[i]]
            0 <= i < before.invitations.len() && before.invitations@[i].token_hash@ == token_hash(
                old_token,
            ) ==> before.invitations@[i].user_id@ == user_id,
    ensures
        live_invitation(after, old_token, later) is None,
{
    let fits = |v: Invitation| v.token_hash@ == token_hash(old_token) && v.expires_at >= later;
    lemma_kept(before.invitations@, invites_others(user_id));
    lemma_first(after.invitations@, fits, 0);
    let j = first_from(after.invitations@, fits, 0);
    if j < after.invitations.len() {
        assert(fits(after.invitations@[j]));
        if j < after.invitations.len() - 1 {
            let v = after.invitations@.drop_last()[j];
            assert((invites_others(user_id))(v));
            assert(before.invitations@.contains(v));
            let m = before.invitations@.index_of(v);
            assert(before.invitations@[m].user_id@ == user_id);
        }
    }
}

} // verus!
