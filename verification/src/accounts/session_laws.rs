//! What holds of accounts, sessions and invitations from call to call: each law is
//! about what a function is handed and what it gives back.
use crate::accounts::rows::{first, first_from, lemma_first, lemma_kept, lemma_only};
use crate::accounts::users::{
    accept, accept_with, add_user, app_session_user, create_app_session, create_app_session_with,
    grant, has_email, has_grant, has_id, invite, invite_with, invitee, invites_others, is_grant,
    is_live, log_in, log_in_with, log_out, normalise, of_others, opt_str, outlives, owner_of,
    reinvite, reinvite_with, revoke, role_in, session_user, set_active, sign_up, sign_up_with,
    site_session_user, survives, valid_app_scope, Accounts, Grant, Invitation, Session, User,
};
use crate::content::slug::is_slug;
use crate::crypto::{check_password, hash_token, token_hash};
use crate::text::trimmed;
use crate::text_laws::{is_blank, is_tight};
use vstd::prelude::*;
use vstd::utf8::encode_utf8;

verus! {

/// The account of an email, in a well-formed table.
proof fn lemma_by_email(accounts: Accounts, k: int)
    requires
        accounts.wf(),
        0 <= k < accounts.users.len(),
    ensures
        accounts.by_email(accounts.users@[k].email@) == Some(accounts.users@[k]),
        first_from(accounts.users@, has_email(accounts.users@[k].email@), 0) == k,
{
    let email = accounts.users@[k].email@;
    let fits = has_email(email);
    assert forall|j: int| 0 <= j < k implies !fits(#[trigger] accounts.users@[j]) by {
        assert(accounts.users@[j].email@ != accounts.users@[k].email@);
    }
    lemma_only(accounts.users@, fits, k);
    lemma_first(accounts.users@, fits, 0);
}

/// The account of an id, in a well-formed table.
proof fn lemma_by_id(accounts: Accounts, k: int)
    requires
        accounts.wf(),
        0 <= k < accounts.users.len(),
    ensures
        accounts.by_id(accounts.users@[k].id@) == Some(accounts.users@[k]),
        first_from(accounts.users@, has_id(accounts.users@[k].id@), 0) == k,
{
    let fits = has_id(accounts.users@[k].id@);
    assert forall|j: int| 0 <= j < k implies !fits(#[trigger] accounts.users@[j]) by {
        assert(accounts.users@[j].id@ != accounts.users@[k].id@);
    }
    lemma_only(accounts.users@, fits, k);
    lemma_first(accounts.users@, fits, 0);
}

/// Blanks around an email do not make a second account.
pub proof fn blanks_around_an_email_do_not_count(
    front: Seq<char>,
    inner: &str,
    end: Seq<char>,
    s: &str,
    x: String,
    y: String,
)
    requires
        is_blank(front),
        is_blank(end),
        is_tight(inner@),
        s@ == front + inner@ + end,
        call_ensures(normalise, (inner,), x),
        call_ensures(normalise, (s,), y),
    ensures
        x@ == y@,
{
    crate::text_laws::lemma_trimmed(front, inner@, end);
    assert(trimmed(inner@) == inner@);
}

/// A token speaks for the account that its session is of, where the session has not
/// ended, is of the tier that is asked for, and the account is active; and only
/// sessions that have ended are forgotten.
pub proof fn who_a_token_speaks_for(
    accounts: &mut Accounts,
    token: &str,
    hash: String,
    scope: Option<&str>,
    now: u64,
    i: int,
    k: int,
    r: Option<User>,
)
    requires
        old(accounts).wf(),
        call_ensures(hash_token, (token,), hash),
        call_ensures(session_user, (accounts, token, scope, now), r),
        0 <= i < old(accounts).sessions.len(),
        0 <= k < old(accounts).users.len(),
        old(accounts).sessions@[i].token_hash@ == hash@,
        old(accounts).sessions@[i].user_id@ == old(accounts).users@[k].id@,
    ensures
        r is Some == {
            let s = old(accounts).sessions@[i];
            &&& s.expires_at >= now
            &&& old(accounts).users@[k].is_active
            &&& s.scope is Some == scope is Some
            &&& scope matches Some(wanted) ==> s.scope->0@ == wanted@
        },
        r matches Some(u) ==> u.id@ == old(accounts).users@[k].id@ && u.email@ == old(
            accounts).users@[k].email@ && u.is_admin == old(accounts).users@[k].is_admin,
        forall|s: Session| #[trigger]
            final(accounts).sessions@.contains(s) == (old(accounts).sessions@.contains(s)
                && s.expires_at >= now),
        final(accounts).users@ == old(accounts).users@,
{
    let before = *old(accounts);
    let fits = |s: Session| is_live(s, token@, opt_str(scope), now);
    lemma_by_id(before, k);
    assert forall|j: int| 0 <= j < before.sessions.len() && j != i implies !fits(
        #[trigger] before.sessions@[j],
    ) by {
        if j < i {
            assert(before.sessions@[j].token_hash@ != before.sessions@[i].token_hash@);
        } else {
            assert(before.sessions@[i].token_hash@ != before.sessions@[j].token_hash@);
        }
    }
    if fits(before.sessions@[i]) {
        lemma_only(before.sessions@, fits, i);
    } else {
        lemma_first(before.sessions@, fits, 0);
        assert(first(before.sessions@, fits) is None) by {
            let j = first_from(before.sessions@, fits, 0);
            if j < before.sessions.len() {
                assert(fits(before.sessions@[j]));
            }
        }
    }
    let stays = |s: Session| s.expires_at >= now;
    lemma_kept(before.sessions@, stays);
    let kept = before.sessions@.filter(stays);
    assert forall|s: Session| #[trigger]
        final(accounts).sessions@.contains(s) == (before.sessions@.contains(s) && s.expires_at
            >= now) by {
        if kept.contains(s) {
            let j = kept.index_of(s);
            assert(stays(kept[j]));
            assert(before.sessions@.contains(kept[j]));
        }
        if before.sessions@.contains(s) && s.expires_at >= now {
            assert(stays(s));
            assert(kept.contains(s));
        }
    }
}

/// A token that no session has speaks for nobody.
pub proof fn an_unknown_token_speaks_for_nobody(
    accounts: &mut Accounts,
    token: &str,
    hash: String,
    scope: Option<&str>,
    now: u64,
    r: Option<User>,
)
    requires
        call_ensures(hash_token, (token,), hash),
        call_ensures(session_user, (accounts, token, scope, now), r),
        forall|i: int|
            0 <= i < old(accounts).sessions.len() ==> (#[trigger] old(
                accounts).sessions@[i]).token_hash@ != hash@,
    ensures
        r is None,
{
    let fits = |s: Session| is_live(s, token@, opt_str(scope), now);
    lemma_first(old(accounts).sessions@, fits, 0);
}

/// A site session is one without a scope, and an app's is one with the app's: either
/// is asked for by itself.
pub proof fn each_tier_asks_for_its_own(
    site: &mut Accounts,
    app: &mut Accounts,
    bare: &mut Accounts,
    scoped: &mut Accounts,
    token: &str,
    name: &str,
    now: u64,
    a: Option<User>,
    b: Option<User>,
    x: Option<User>,
    y: Option<User>,
)
    requires
        *old(site) == *old(bare),
        *old(app) == *old(scoped),
        call_ensures(site_session_user, (site, token, now), a),
        call_ensures(session_user, (bare, token, None, now), x),
        call_ensures(app_session_user, (app, token, name, now), b),
        call_ensures(session_user, (scoped, token, Some(name), now), y),
    ensures
        a is Some == x is Some,
        a is Some ==> a->0.id@ == x->0.id@,
        is_slug(name@) && !name@.contains('/') ==> b is Some == y is Some && (b is Some
            ==> b->0.id@ == y->0.id@),
        !is_slug(name@) || name@.contains('/') ==> b is None,
{
}

/// Signing in works for an active account whose password is the one given, and for
/// no other; the session it begins is the site's, and lasts a fortnight.
pub proof fn signing_in_takes_an_active_password(
    accounts: &mut Accounts,
    email: &str,
    normal: String,
    password: &str,
    stored: &str,
    right: Result<bool, String>,
    token: String,
    given: &str,
    hash: String,
    now: u64,
    k: int,
    r: Result<(User, String), String>,
)
    requires
        old(accounts).wf(),
        now <= u64::MAX - 1_209_600,
        call_ensures(normalise, (email,), normal),
        given@ == token@,
        call_ensures(hash_token, (given,), hash),
        call_ensures(log_in_with, (accounts, email, password, token, now), r),
        0 <= k < old(accounts).users.len(),
        old(accounts).users@[k].email@ == normal@,
        old(accounts).users@[k].password_hash matches Some(h) ==> h@ == stored@,
        call_ensures(check_password, (stored, password), right),
    ensures
        r is Ok ==> old(accounts).users@[k].is_active && old(accounts).users@[k].password_hash is Some
            && right == Ok::<bool, String>(true),
        old(accounts).users@[k].is_active && old(accounts).users@[k].password_hash is Some && right
            == Ok::<bool, String>(true) && (forall|i: int|
            0 <= i < old(accounts).sessions.len() ==> (#[trigger] old(
                accounts).sessions@[i]).token_hash@ != hash@) ==> r is Ok,
        r is Err ==> *final(accounts) == *old(accounts),
        r matches Ok((user, t)) ==> {
            let s = final(accounts).sessions@.last();
            &&& t@ == token@
            &&& user.id@ == old(accounts).users@[k].id@
            &&& user.is_admin == old(accounts).users@[k].is_admin
            &&& final(accounts).sessions@ == old(accounts).sessions@.push(s)
            &&& s.token_hash@ == hash@
            &&& s.user_id@ == user.id@
            &&& s.expires_at == now + 1_209_600
            &&& s.scope is None
            &&& final(accounts).users@ == old(accounts).users@
        },
{
    lemma_by_email(*old(accounts), k);
    if r is Ok {
        let after = final(accounts).sessions@;
        assert(after =~= after.drop_last().push(after.last()));
    }
}

/// An email that no account has cannot sign in.
pub proof fn an_unknown_email_cannot_sign_in(
    accounts: &mut Accounts,
    email: &str,
    normal: String,
    password: &str,
    token: String,
    now: u64,
    r: Result<(User, String), String>,
)
    requires
        call_ensures(normalise, (email,), normal),
        call_ensures(log_in_with, (accounts, email, password, token, now), r),
        forall|k: int|
            0 <= k < old(accounts).users.len() ==> (#[trigger] old(accounts).users@[k]).email@
                != normal@,
    ensures
        r is Err,
        *final(accounts) == *old(accounts),
{
    lemma_first(old(accounts).users@, has_email(normal@), 0);
}

/// An app session may be scoped to a slug of a single segment, and to nothing else.
pub proof fn what_a_session_may_be_scoped_to(app: &str, r: bool)
    requires
        call_ensures(valid_app_scope, (app,), r),
    ensures
        r == (is_slug(app@) && !app@.contains('/')),
{
}

/// An app session comes of a site session that has not ended, is for the app that was
/// asked for and for the same account, lasts a day, and never outlives the site
/// session.
pub proof fn an_app_session_lasts_a_day_at_most(
    accounts: &mut Accounts,
    site: &str,
    hash: String,
    app: &str,
    token: String,
    now: u64,
    i: int,
    r: Result<(User, String, u64), String>,
)
    requires
        old(accounts).wf(),
        now <= u64::MAX - 86_400,
        call_ensures(hash_token, (site,), hash),
        call_ensures(create_app_session_with, (accounts, site, app, token, now), r),
        0 <= i < old(accounts).sessions.len(),
        old(accounts).sessions@[i].token_hash@ == hash@,
    ensures
        r is Err ==> *final(accounts) == *old(accounts),
        r matches Ok((user, t, age)) ==> {
            let parent = old(accounts).sessions@[i];
            let s = final(accounts).sessions@.last();
            &&& is_slug(app@) && !app@.contains('/')
            &&& parent.scope is None
            &&& parent.expires_at > now
            &&& final(accounts).sessions@ == old(accounts).sessions@.push(s)
            &&& s.scope matches Some(a) && a@ == app@
            &&& s.user_id@ == parent.user_id@
            &&& user.id@ == parent.user_id@
            &&& s.expires_at <= parent.expires_at
            &&& s.expires_at <= now + 86_400
            &&& s.expires_at == parent.expires_at || s.expires_at == now + 86_400
            &&& age == s.expires_at - now
            &&& age > 0
        },
{
    if r is Ok {
        let before = *old(accounts);
        let after = final(accounts).sessions@;
        assert(after =~= after.drop_last().push(after.last()));
        let fits = |s: Session| is_live(s, site@, None, now);
        lemma_first(before.sessions@, fits, 0);
        let j = first_from(before.sessions@, fits, 0);
        assert(fits(before.sessions@[j]));
        if j < i {
            assert(before.sessions@[j].token_hash@ != before.sessions@[i].token_hash@);
        } else if i < j {
            assert(before.sessions@[i].token_hash@ != before.sessions@[j].token_hash@);
        }
        let parent = before.sessions@[i];
        lemma_first(before.users@, has_id(parent.user_id@), 0);
        let k = first_from(before.users@, has_id(parent.user_id@), 0);
        let named = has_id(parent.user_id@);
        assert(named(before.users@[k]));
    }
}

/// Signing out ends the session of the token and every app session of its owner, and
/// no other.
pub proof fn signing_out_ends_what_descends(
    accounts: &mut Accounts,
    token: &str,
    hash: String,
    i: int,
    s: Session,
)
    requires
        old(accounts).wf(),
        call_ensures(hash_token, (token,), hash),
        call_ensures(log_out, (accounts, token), ()),
        0 <= i < old(accounts).sessions.len(),
        old(accounts).sessions@[i].token_hash@ == hash@,
    ensures
        final(accounts).sessions@.contains(s) == (old(accounts).sessions@.contains(s)
            && s.token_hash@ != hash@ && !(s.scope is Some && s.user_id@ == old(
            accounts).sessions@[i].user_id@)),
        final(accounts).users@ == old(accounts).users@,
{
    let before = *old(accounts);
    let named = |x: Session| x.token_hash@ == token_hash(token@);
    assert forall|j: int| 0 <= j < i implies !named(#[trigger] before.sessions@[j]) by {
        assert(before.sessions@[j].token_hash@ != before.sessions@[i].token_hash@);
    }
    lemma_only(before.sessions@, named, i);
    let fits = |x: Session| survives(x, token@, owner_of(before, token@));
    lemma_kept(before.sessions@, fits);
    let kept = before.sessions@.filter(fits);
    if kept.contains(s) {
        let j = kept.index_of(s);
        assert(fits(kept[j]));
        assert(before.sessions@.contains(kept[j]));
    }
    if before.sessions@.contains(s) && fits(s) {
        assert(kept.contains(s));
    }
}

/// Whoever is granted an app has it, in the role that was given, and nobody else's
/// access changes.
pub proof fn a_grant_gives_one_app(
    accounts: &mut Accounts,
    after: Accounts,
    before: Accounts,
    email: &str,
    normal: String,
    app: &str,
    role: &str,
    k: int,
    user: User,
    other: User,
    elsewhere: &str,
    r: Result<(), String>,
    can: bool,
    had: bool,
    still: bool,
    in_role: Option<String>,
)
    requires
        old(accounts).wf(),
        before == *old(accounts),
        after == *final(accounts),
        call_ensures(normalise, (email,), normal),
        call_ensures(grant, (accounts, email, app, role), r),
        0 <= k < before.users.len(),
        before.users@[k].email@ == normal@,
        user.id@ == before.users@[k].id@,
        call_ensures(has_grant, (&after, &user, app), can),
        call_ensures(role_in, (&after, &user, app), in_role),
        other.id@ != user.id@ || elsewhere@ != app@,
        call_ensures(has_grant, (&before, &other, elsewhere), had),
        call_ensures(has_grant, (&after, &other, elsewhere), still),
    ensures
        r is Ok == is_slug(app@),
        r is Ok ==> can && (in_role matches Some(x) && x@ == role@),
        had == still,
        r is Err ==> after == before,
{
    lemma_by_email(before, k);
    let fits = |g: Grant| is_grant(g, user.id@, app@);
    let others = |g: Grant| is_grant(g, other.id@, elsewhere@);
    if r is Ok {
        lemma_first(before.grants@, fits, 0);
        let p = first_from(before.grants@, fits, 0);
        assert forall|j: int| 0 <= j < p implies !fits(#[trigger] after.grants@[j]) by {
            assert(after.grants@[j] == before.grants@[j]);
            assert(!fits(before.grants@[j]));
        }
        assert(fits(after.grants@[p]));
        lemma_only(after.grants@, fits, p);
        lemma_first(before.grants@, others, 0);
        lemma_first(after.grants@, others, 0);
        let a = first_from(before.grants@, others, 0);
        let b = first_from(after.grants@, others, 0);
        if a < before.grants.len() {
            assert(others(before.grants@[a]));
            if a == p {
                assert(fits(before.grants@[a]));
            }
            assert(after.grants@[a] == before.grants@[a]);
            assert(others(after.grants@[a]));
        }
        if b < after.grants.len() {
            assert(others(after.grants@[b]));
            assert(b != p);
            assert(b < before.grants.len());
            assert(after.grants@[b] == before.grants@[b]);
            assert(others(before.grants@[b]));
        }
    }
}

/// Revoking takes an app from an account, and from no other account and no other app.
pub proof fn revoking_takes_one_app(
    accounts: &mut Accounts,
    after: Accounts,
    before: Accounts,
    email: &str,
    normal: String,
    app: &str,
    k: int,
    user: User,
    other: User,
    elsewhere: &str,
    can: bool,
    had: bool,
    still: bool,
)
    requires
        old(accounts).wf(),
        before == *old(accounts),
        after == *final(accounts),
        call_ensures(normalise, (email,), normal),
        call_ensures(revoke, (accounts, email, app), ()),
        0 <= k < before.users.len(),
        before.users@[k].email@ == normal@,
        user.id@ == before.users@[k].id@,
        call_ensures(has_grant, (&after, &user, app), can),
        other.id@ != user.id@ || elsewhere@ != app@,
        call_ensures(has_grant, (&before, &other, elsewhere), had),
        call_ensures(has_grant, (&after, &other, elsewhere), still),
    ensures
        !can,
        had == still,
{
    lemma_by_email(before, k);
    let stays = |g: Grant| outlives(g, before.by_email(normal@), app@);
    lemma_kept(before.grants@, stays);
    let fits = |g: Grant| is_grant(g, user.id@, app@);
    lemma_first(after.grants@, fits, 0);
    let p = first_from(after.grants@, fits, 0);
    if p < after.grants.len() {
        assert(fits(after.grants@[p]));
        assert(stays(after.grants@[p]));
    }
    let others = |g: Grant| is_grant(g, other.id@, elsewhere@);
    lemma_first(before.grants@, others, 0);
    lemma_first(after.grants@, others, 0);
    let a = first_from(before.grants@, others, 0);
    let b = first_from(after.grants@, others, 0);
    if a < before.grants.len() {
        let g = before.grants@[a];
        assert(others(g));
        assert(stays(g));
        assert(before.grants@.contains(g));
        assert(after.grants@.contains(g));
        let j = after.grants@.index_of(g);
        assert(others(after.grants@[j]));
    }
    if b < after.grants.len() {
        let g = after.grants@[b];
        assert(others(g));
        assert(before.grants@.contains(g));
        let j = before.grants@.index_of(g);
        assert(others(before.grants@[j]));
    }
}

/// Turning an account off ends its sessions and no others; turning it on ends none.
/// Nothing else of it changes, nor of any other account.
pub proof fn turning_off_ends_sessions(
    accounts: &mut Accounts,
    email: &str,
    normal: String,
    active: bool,
    k: int,
    j: int,
    s: Session,
    r: Result<(), String>,
)
    requires
        old(accounts).wf(),
        call_ensures(normalise, (email,), normal),
        call_ensures(set_active, (accounts, email, active), r),
        0 <= k < old(accounts).users.len(),
        old(accounts).users@[k].email@ == normal@,
        0 <= j < old(accounts).users.len(),
    ensures
        r is Ok,
        final(accounts).users.len() == old(accounts).users.len(),
        final(accounts).users@[k].is_active == active,
        final(accounts).users@[k].password_hash == old(accounts).users@[k].password_hash,
        final(accounts).users@[k].id == old(accounts).users@[k].id,
        j != k ==> final(accounts).users@[j] == old(accounts).users@[j],
        active ==> final(accounts).sessions@ == old(accounts).sessions@,
        !active ==> final(accounts).sessions@.contains(s) == (old(accounts).sessions@.contains(s)
            && s.user_id@ != old(accounts).users@[k].id@),
        final(accounts).grants@ == old(accounts).grants@,
{
    let before = *old(accounts);
    lemma_by_email(before, k);
    let fits = of_others(before.users@[k].id@);
    lemma_kept(before.sessions@, fits);
    let kept = before.sessions@.filter(fits);
    if kept.contains(s) {
        let i = kept.index_of(s);
        assert(fits(kept[i]));
        assert(before.sessions@.contains(kept[i]));
    }
    if before.sessions@.contains(s) && fits(s) {
        assert(kept.contains(s));
    }
}

/// An account is made for an email with an `@` that nobody has, with a password of
/// eight characters at least; it is active, and an admin only where that was asked
/// for.
pub proof fn who_can_sign_up(
    accounts: &mut Accounts,
    email: &str,
    normal: String,
    password: &str,
    is_admin: bool,
    id: String,
    salt: Vec<u8>,
    now: u64,
    k: int,
    r: Result<User, String>,
)
    requires
        call_ensures(normalise, (email,), normal),
        call_ensures(sign_up_with, (accounts, email, password, is_admin, id, &salt, now), r),
    ensures
        !normal@.contains('@') ==> r is Err,
        encode_utf8(normal@).len() < 3 ==> r is Err,
        password@.len() < 8 ==> r is Err,
        0 <= k < old(accounts).users.len() && old(accounts).users@[k].email@ == normal@ ==> r is Err,
        normal@.contains('@') && encode_utf8(normal@).len() >= 3 && password@.len() >= 8
            && crate::crypto::argon2_hash(password@, salt@) is Ok && (forall|i: int|
            0 <= i < old(accounts).users.len() ==> (#[trigger] old(accounts).users@[i]).email@
                != normal@ && old(accounts).users@[i].id@ != id@) ==> r is Ok,
        r is Err ==> *final(accounts) == *old(accounts),
        r matches Ok(user) ==> {
            let a = final(accounts).users@.last();
            &&& final(accounts).users@ == old(accounts).users@.push(a)
            &&& a.id@ == id@ && user.id@ == id@
            &&& a.email@ == normal@ && user.email@ == normal@
            &&& a.is_admin == is_admin && user.is_admin == is_admin
            &&& a.is_active
            &&& a.password_hash is Some
            &&& final(accounts).sessions@ == old(accounts).sessions@
            &&& final(accounts).grants@ == old(accounts).grants@
        },
{
    if r is Ok {
        let after = final(accounts).users@;
        assert(after =~= after.drop_last().push(after.last()));
    }
    if 0 <= k < old(accounts).users.len() && old(accounts).users@[k].email@ == normal@ {
        assert(crate::accounts::users::taken(*old(accounts), id@, normal@));
    }
}

/// Whoever is invited waits for a password, and the link names them for two days.
pub proof fn an_invitation_lasts_two_days(
    accounts: &mut Accounts,
    after: Accounts,
    email: &str,
    normal: String,
    is_admin: bool,
    id: String,
    token: String,
    given: &str,
    hash: String,
    now: u64,
    later: u64,
    made: Result<(User, String), String>,
    r: Option<User>,
)
    requires
        old(accounts).wf(),
        now <= u64::MAX - 172_800,
        call_ensures(normalise, (email,), normal),
        call_ensures(invite_with, (accounts, email, is_admin, id, token, now), made),
        made is Ok,
        after == *final(accounts),
        after.wf(),
        given@ == token@,
        call_ensures(hash_token, (given,), hash),
        forall|i: int|
            0 <= i < old(accounts).invitations.len() ==> (#[trigger] old(
                accounts).invitations@[i]).token_hash@ != hash@,
        call_ensures(invitee, (&after, given, later), r),
    ensures
        later <= now + 172_800 ==> (r matches Some(u) && u.id@ == id@ && u.email@ == normal@
            && u.is_admin == is_admin),
        later > now + 172_800 ==> r is None,
        after.users@.last().password_hash is None,
        normal@.contains('@'),
{
    let before = *old(accounts);
    let n = after.invitations.len() - 1;
    let kept = before.invitations@.filter(invites_others(id@));
    lemma_kept(before.invitations@, invites_others(id@));
    let fits = |v: Invitation| v.token_hash@ == token_hash(given@) && v.expires_at >= later;
    assert forall|j: int| 0 <= j < n implies !fits(#[trigger] after.invitations@[j]) by {
        assert(after.invitations@[j] == kept[j]);
        assert(before.invitations@.contains(kept[j]));
        let w = before.invitations@.index_of(kept[j]);
        assert(before.invitations@[w].token_hash@ != hash@);
    }
    if later <= now + 172_800 {
        assert(fits(after.invitations@[n]));
        lemma_only(after.invitations@, fits, n);
        lemma_by_id(after, after.users.len() - 1);
    } else {
        lemma_first(after.invitations@, fits, 0);
        let p = first_from(after.invitations@, fits, 0);
        if p < after.invitations.len() {
            assert(fits(after.invitations@[p]));
        }
    }
}

/// A fresh link replaces the one that was out: of the links of an account only the
/// last is kept, for two days, and those of others stay.
pub proof fn a_fresh_link_replaces_the_last(
    accounts: &mut Accounts,
    email: &str,
    normal: String,
    token: String,
    given: &str,
    hash: String,
    now: u64,
    k: int,
    v: Invitation,
    r: Result<String, String>,
)
    requires
        old(accounts).wf(),
        now <= u64::MAX - 172_800,
        call_ensures(normalise, (email,), normal),
        given@ == token@,
        call_ensures(hash_token, (given,), hash),
        call_ensures(reinvite_with, (accounts, email, token, now), r),
        0 <= k < old(accounts).users.len(),
        old(accounts).users@[k].email@ == normal@,
    ensures
        r matches Ok(t) && t@ == token@,
        v.user_id@ != old(accounts).users@[k].id@ ==> final(accounts).invitations@.contains(v)
            == old(accounts).invitations@.contains(v),
        v.user_id@ == old(accounts).users@[k].id@ && final(accounts).invitations@.contains(v)
            ==> v.token_hash@ == hash@ && v.expires_at == now + 172_800,
        final(accounts).invitations@.last().user_id@ == old(accounts).users@[k].id@,
        final(accounts).invitations@.last().token_hash@ == hash@,
        final(accounts).invitations@.last().expires_at == now + 172_800,
{
    let before = *old(accounts);
    lemma_by_email(before, k);
    let fits = invites_others(before.users@[k].id@);
    lemma_kept(before.invitations@, fits);
    let kept = before.invitations@.filter(fits);
    let after = final(accounts).invitations@;
    assert(after =~= kept.push(after.last()));
    if after.contains(v) {
        let i = after.index_of(v);
        if i < kept.len() {
            assert(kept[i] == v);
            assert(fits(kept[i]));
            assert(before.invitations@.contains(kept[i]));
        }
    }
    if before.invitations@.contains(v) && fits(v) {
        assert(kept.contains(v));
        let i = kept.index_of(v);
        assert(after[i] == v);
    }
}

/// Accepting an invitation takes a password of eight characters; it uses the link up,
/// sets the password of the account that the link is for and of no other, and begins
/// a session of the site for a fortnight.
pub proof fn an_invitation_sets_a_password_once(
    accounts: &mut Accounts,
    before: Accounts,
    token: &str,
    password: &str,
    salt: Vec<u8>,
    session: String,
    given: &str,
    hash: String,
    now: u64,
    k: int,
    j: int,
    who: Option<User>,
    r: Result<(User, String), String>,
)
    requires
        before == *old(accounts),
        before.wf(),
        now <= u64::MAX - 1_209_600,
        call_ensures(invitee, (&before, token, now), who),
        given@ == session@,
        call_ensures(hash_token, (given,), hash),
        call_ensures(accept_with, (accounts, token, password, &salt, session, now), r),
        0 <= k < before.users.len(),
        who matches Some(u) ==> u.id@ == before.users@[k].id@,
        0 <= j < before.users.len(),
    ensures
        who is None || password@.len() < 8 ==> r is Err,
        r is Err ==> *final(accounts) == before,
        r matches Ok((user, t)) ==> {
            let s = final(accounts).sessions@.last();
            &&& t@ == session@
            &&& user.id@ == before.users@[k].id@
            &&& final(accounts).users.len() == before.users.len()
            &&& final(accounts).users@[k].password_hash is Some
            &&& final(accounts).users@[k].is_admin == before.users@[k].is_admin
            &&& final(accounts).users@[k].is_active == before.users@[k].is_active
            &&& j != k ==> final(accounts).users@[j] == before.users@[j]
            &&& forall|i: int|
                0 <= i < final(accounts).invitations.len() ==> (#[trigger] final(
                    accounts).invitations@[i]).user_id@ != before.users@[k].id@
            &&& final(accounts).sessions@ == before.sessions@.push(s)
            &&& s.token_hash@ == hash@
            &&& s.user_id@ == user.id@
            &&& s.expires_at == now + 1_209_600
            &&& s.scope is None
        },
{
    lemma_by_id(before, k);
    if r is Ok {
        let v = crate::accounts::users::live_invitation(before, token@, now)->0;
        let named = has_id(v.user_id@);
        lemma_first(before.users@, named, 0);
        assert(named(before.users@[first_from(before.users@, named, 0)]));
        let after = final(accounts).sessions@;
        assert(after =~= after.drop_last().push(after.last()));
        let fits = invites_others(before.users@[k].id@);
        lemma_kept(before.invitations@, fits);
        assert forall|i: int| 0 <= i < final(accounts).invitations.len() implies (#[trigger] final(
            accounts).invitations@[i]).user_id@ != before.users@[k].id@ by {
            assert(fits(before.invitations@.filter(fits)[i]));
        }
    }
}

/// What chance decides is long: a session's token and an invitation's have 48
/// characters, and an account's id has 16.
pub proof fn what_is_drawn_is_long(
    a: &mut Accounts,
    b: &mut Accounts,
    c: &mut Accounts,
    d: &mut Accounts,
    e: &mut Accounts,
    f: &mut Accounts,
    email: &str,
    password: &str,
    token: &str,
    app: &str,
    is_admin: bool,
    now: u64,
    logged: Result<(User, String), String>,
    minted: Result<(User, String, u64), String>,
    invited_as: Result<(User, String), String>,
    fresh: Result<String, String>,
    accepted_as: Result<(User, String), String>,
    made: Result<User, String>,
)
    requires
        call_ensures(log_in, (a, email, password, now), logged),
        call_ensures(create_app_session, (b, token, app, now), minted),
        call_ensures(invite, (c, email, is_admin, now), invited_as),
        call_ensures(reinvite, (d, email, now), fresh),
        call_ensures(accept, (e, token, password, now), accepted_as),
        call_ensures(sign_up, (f, email, password, now), made),
    ensures
        logged matches Ok((_, t)) ==> t@.len() == 48,
        minted matches Ok((_, t, _)) ==> t@.len() == 48,
        invited_as matches Ok((u, t)) ==> t@.len() == 48 && u.id@.len() == 16 && u.is_admin
            == is_admin,
        fresh matches Ok(t) ==> t@.len() == 48,
        accepted_as matches Ok((_, t)) ==> t@.len() == 48,
        made matches Ok(u) ==> u.id@.len() == 16 && !u.is_admin,
        password@.len() < 8 ==> made is Err && accepted_as is Err,
{
}

/// An account is added unless its id or its email is there already.
pub proof fn an_account_is_added_once(
    accounts: &mut Accounts,
    id: String,
    email: String,
    hash: Option<String>,
    is_admin: bool,
    now: u64,
    k: int,
    r: Result<User, String>,
)
    requires
        call_ensures(add_user, (accounts, id, email, hash, is_admin, now), r),
    ensures
        0 <= k < old(accounts).users.len() && (old(accounts).users@[k].id@ == id@ || old(
            accounts).users@[k].email@ == email@) ==> r is Err,
        (forall|i: int|
            0 <= i < old(accounts).users.len() ==> (#[trigger] old(accounts).users@[i]).id@ != id@
                && old(accounts).users@[i].email@ != email@) ==> r is Ok,
        r is Err ==> *final(accounts) == *old(accounts),
        r matches Ok(u) ==> final(accounts).users.len() == old(accounts).users.len() + 1 && final(
            accounts).users@.last().is_active && final(accounts).users@.last().is_admin == is_admin
            && final(accounts).users@.last().password_hash == hash && u.id@ == id@,
{
    if 0 <= k < old(accounts).users.len() && (old(accounts).users@[k].id@ == id@ || old(
        accounts).users@[k].email@ == email@) {
        assert(crate::accounts::users::taken(*old(accounts), id@, email@));
    }
}

/// A token is kept as its digest, never as it is; and a password is right where the stored
/// hash can be read, does not ask for threads beyond number, and is the password's.
pub proof fn what_is_kept_of_a_secret(
    token: &str,
    hash: String,
    stored: &str,
    password: &str,
    i: int,
    r: Result<bool, String>,
)
    requires
        call_ensures(hash_token, (token,), hash),
        call_ensures(check_password, (stored, password), r),
    ensures
        hash@ == crate::crypto::base64_url(crate::crypto::sha256(encode_utf8(token@))),
        r is Ok == crate::crypto::argon2_form(stored@) is Ok,
        r == Ok::<bool, String>(true) ==> crate::crypto::argon2_matches(stored@, password@),
        0 <= i && i + 11 <= stored@.len() && stored@[i] == 'p' && stored@[i + 1] == '=' && (forall|
            j: int,
        |
            i + 2 <= j < i + 11 ==> '0' <= #[trigger] stored@[j] <= '9') ==> r != Ok::<
            bool,
            String,
        >(true),
        !stored@.contains('=') && crate::crypto::argon2_matches(stored@, password@) && r is Ok ==> r
            == Ok::<bool, String>(true),
{
    if 0 <= i && i + 11 <= stored@.len() && stored@[i] == 'p' && stored@[i + 1] == '=' && forall|
        j: int,
    |
        i + 2 <= j < i + 11 ==> '0' <= #[trigger] stored@[j] <= '9' {
        assert(crate::crypto::sets_threads(stored@, i));
    }
    if crate::crypto::claims_threads(stored@) {
        let k = choose|k: int| #[trigger] crate::crypto::sets_threads(stored@, k);
        assert(stored@[k + 1] == '=');
    }
}

} // verus!
