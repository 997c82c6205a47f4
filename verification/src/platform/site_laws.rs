//! What holds of the admin page, of removals and of scaffolds: each law is about what
//! a function is handed and what it gives back.
use crate::accounts::rows::{first_from, lemma_first, lemma_kept, lemma_only};
use crate::accounts::schema::site_db_path;
use crate::accounts::users::{
    has_email, has_grant, has_id, normalise, outlives, Accounts, Grant, User,
};
use crate::accounts::web::current_site_user;
use crate::config::Config;
use crate::content::slug::is_slug;
use crate::content::store::{inside, PageMeta};
use crate::crypto::token_hash;
use crate::platform::admin::{
    add_account_with, change_access, change_active, change_gate, check_form_token, form_token,
    gate_changed, granted_to, list_accounts, list_apps, list_grants, no_store, page, require_admin,
    require_form, AccessChange, AccountLine, ActiveChange, GateChange, NewAccount,
};
use crate::platform::scaffold::{
    guide, gzipped, handler_files, handler_scaffold, pack, scaffold_answer, tar_bytes, wit,
    Download, ScaffoldQuery, Templates,
};
use crate::platform::secrets::key_path;
use crate::platform::trash::{
    free_name, is_first_free, moves_view, nth_name, removal_goes_to_a_free_place, remove,
    remove_page_only, sidecar_moves, sidecar_name, trash_dir, Move,
};
use crate::platform::upload::app_name;
use crate::reply::Reply;
use crate::text::{digits, lowered, pairs, replace_char, replace_text, texts, trimmed};
use vstd::prelude::*;

verus! {

/// Whoever is signed in as an admin may administer. Somebody else who is signed in is
/// told no, and whoever is not is sent to sign in.
pub proof fn who_may_administer(
    accounts: &mut Accounts,
    asked: &mut Accounts,
    cookies: Option<&str>,
    now: u64,
    user: Option<User>,
    r: Result<User, Reply>,
)
    requires
        *old(accounts) == *old(asked),
        call_ensures(current_site_user, (asked, cookies, now), user),
        call_ensures(require_admin, (accounts, cookies, now), r),
    ensures
        r is Ok == (user matches Some(u) && u.is_admin),
        r matches Ok(a) ==> a.id@ == user->0.id@ && a.is_admin,
        user matches Some(u) ==> !u.is_admin ==> r->Err_0.status == 403,
        user is None ==> r->Err_0.status == 303,
        final(accounts).users@ == old(accounts).users@,
        final(accounts).grants@ == old(accounts).grants@,
{
}

/// A form is acted on where an admin sends it with the token that was rendered for
/// them, and otherwise refused.
pub proof fn a_form_is_the_admins_own(
    accounts: &mut Accounts,
    asked: &mut Accounts,
    cookies: Option<&str>,
    secret: &str,
    presented: &str,
    now: u64,
    user: User,
    token: String,
    fits: bool,
    admin: Result<User, Reply>,
    r: Result<User, Reply>,
)
    requires
        *old(accounts) == *old(asked),
        call_ensures(require_admin, (asked, cookies, now), admin),
        admin matches Ok(a) ==> a.id@ == user.id@,
        call_ensures(form_token, (secret, &user), token),
        call_ensures(check_form_token, (secret, &user, presented), fits),
        call_ensures(require_form, (accounts, cookies, secret, presented, now), r),
    ensures
        fits == (presented@ == token@),
        token@ == token_hash(secret@ + "/"@ + user.id@),
        r is Ok == (admin is Ok && fits),
        r matches Ok(a) ==> a.id@ == user.id@,
        admin is Ok && !fits ==> r->Err_0.status == 403,
        admin is Err ==> r->Err_0.status == admin->Err_0.status,
{
}

/// Every account is listed, in the order they were made in.
pub proof fn every_account_is_listed(accounts: Accounts, i: int, r: Vec<AccountLine>)
    requires
        call_ensures(list_accounts, (&accounts,), r),
        0 <= i < accounts.users.len(),
    ensures
        r.len() == accounts.users.len(),
        r@[i].email@ == accounts.users@[i].email@,
        r@[i].is_admin == accounts.users@[i].is_admin,
        r@[i].is_active == accounts.users@[i].is_active,
{
    let line = r@[i];
    assert(line.email@ == accounts.users@[i].email@);
}

/// Every grant of an account that is there is listed, with the account's email, and
/// nothing else is.
pub proof fn every_grant_is_listed(
    accounts: Accounts,
    i: int,
    k: int,
    j: int,
    r: Vec<(String, String)>,
)
    requires
        accounts.wf(),
        call_ensures(list_grants, (&accounts,), r),
    ensures
        0 <= i < accounts.grants.len() && 0 <= k < accounts.users.len()
            && accounts.grants@[i].user_id@ == accounts.users@[k].id@ ==> exists|n: int|
            0 <= n < r.len() && (#[trigger] r@[n]).0@ == accounts.grants@[i].app@ && r@[n].1@
                == accounts.users@[k].email@,
        0 <= j < r.len() ==> exists|g: int, u: int|
            0 <= g < accounts.grants.len() && 0 <= u < accounts.users.len()
                && (#[trigger] accounts.grants@[g]).user_id@ == (
            #[trigger] accounts.users@[u]).id@ && accounts.grants@[g].app@ == r@[j].0@
                && accounts.users@[u].email@ == r@[j].1@,
{
    let listed = pairs(r@);
    assert(listed.len() == r.len());
    if 0 <= i < accounts.grants.len() && 0 <= k < accounts.users.len()
        && accounts.grants@[i].user_id@ == accounts.users@[k].id@ {
        let n = lemma_grant_listed(accounts, accounts.grants@, i, k);
        assert(listed[n] == (r@[n].0@, r@[n].1@));
        assert(r@[n].0@ == accounts.grants@[i].app@);
    }
    if 0 <= j < r.len() {
        assert(listed[j] == (r@[j].0@, r@[j].1@));
        let (g, u) = lemma_listed_granted(accounts, accounts.grants@, j);
        assert(accounts.grants@[g].user_id@ == accounts.users@[u].id@);
    }
}

proof fn lemma_grant_listed(accounts: Accounts, grants: Seq<Grant>, i: int, k: int) -> (n: int)
    requires
        accounts.wf(),
        0 <= i < grants.len(),
        0 <= k < accounts.users.len(),
        grants[i].user_id@ == accounts.users@[k].id@,
    ensures
        0 <= n < granted_to(accounts, grants).len(),
        granted_to(accounts, grants)[n] == (grants[i].app@, accounts.users@[k].email@),
    decreases grants.len(),
{
    let before = granted_to(accounts, grants.drop_last());
    if i == grants.len() - 1 {
        let fits = has_id(accounts.users@[k].id@);
        assert forall|j: int| 0 <= j < k implies !fits(#[trigger] accounts.users@[j]) by {
            assert(accounts.users@[j].id@ != accounts.users@[k].id@);
        }
        lemma_only(accounts.users@, fits, k);
        before.len() as int
    } else {
        assert(grants.drop_last()[i] == grants[i]);
        lemma_grant_listed(accounts, grants.drop_last(), i, k)
    }
}

proof fn lemma_listed_granted(accounts: Accounts, grants: Seq<Grant>, j: int) -> (w: (int, int))
    requires
        0 <= j < granted_to(accounts, grants).len(),
    ensures
        0 <= w.0 < grants.len(),
        0 <= w.1 < accounts.users.len(),
        grants[w.0].user_id@ == accounts.users@[w.1].id@,
        granted_to(accounts, grants)[j] == (grants[w.0].app@, accounts.users@[w.1].email@),
    decreases grants.len(),
{
    let before = granted_to(accounts, grants.drop_last());
    if j < before.len() {
        let w = lemma_listed_granted(accounts, grants.drop_last(), j);
        assert(grants.drop_last()[w.0] == grants[w.0]);
        w
    } else {
        let fits = has_id(grants.last().user_id@);
        lemma_first(accounts.users@, fits, 0);
        let u = first_from(accounts.users@, fits, 0);
        assert(fits(accounts.users@[u]));
        (grants.len() - 1, u)
    }
}

/// The apps that are listed are those that pages belong to, each once.
pub proof fn every_app_is_listed_once(
    slugs: Vec<String>,
    i: int,
    slug: &str,
    app: String,
    r: Vec<String>,
)
    requires
        call_ensures(list_apps, (&slugs,), r),
        0 <= i < slugs.len(),
        slug@ == slugs@[i]@,
        call_ensures(app_name, (slug,), app),
    ensures
        texts(r@).contains(app@),
        texts(r@).no_duplicates(),
{
    let all = texts(slugs@);
    assert(all[i] == slug@);
    assert(crate::platform::upload::app_of(all[i]) == app@);
}

/// Only an admin's form makes an account. Made, it is active, and an admin's where the
/// box was ticked.
pub proof fn only_a_form_makes_an_account(
    accounts: &mut Accounts,
    asked: &mut Accounts,
    cookies: Option<&str>,
    form: NewAccount,
    token: &str,
    secret: &str,
    id: String,
    salt: Vec<u8>,
    now: u64,
    admin: Result<User, Reply>,
    r: Reply,
)
    requires
        *old(accounts) == *old(asked),
        token@ == form.token@,
        call_ensures(require_form, (asked, cookies, secret, token, now), admin),
        call_ensures(add_account_with, (accounts, cookies, &form, secret, id, &salt, now), r),
    ensures
        admin matches Err(reply) ==> r.status == reply.status && final(accounts).users@ == old(
            accounts).users@,
        admin is Ok ==> r.status == 303 || r.status == 400,
        admin is Ok && r.status == 400 ==> final(accounts).users@ == old(accounts).users@,
        admin is Ok && r.status == 303 ==> {
            let a = final(accounts).users@.last();
            &&& final(accounts).users@ == old(accounts).users@.push(a)
            &&& a.is_admin == form.admin is Some
            &&& a.is_active
            &&& form.password@.len() >= 8
        },
{
    if admin is Ok && r.status == 303 {
        let after = final(accounts).users@;
        assert(after =~= after.drop_last().push(after.last()));
    }
}

/// An admin turns an account on or off, but not their own off; whoever is no admin
/// does neither.
pub proof fn an_admin_turns_accounts_off(
    accounts: &mut Accounts,
    asked: &mut Accounts,
    cookies: Option<&str>,
    form: ActiveChange,
    email: &str,
    normal: String,
    token: &str,
    secret: &str,
    now: u64,
    k: int,
    j: int,
    admin: Result<User, Reply>,
    r: Reply,
)
    requires
        old(accounts).wf(),
        *old(accounts) == *old(asked),
        token@ == form.token@,
        email@ == form.email@,
        call_ensures(normalise, (email,), normal),
        call_ensures(require_form, (asked, cookies, secret, token, now), admin),
        call_ensures(change_active, (accounts, cookies, &form, secret, now), r),
        0 <= k < old(accounts).users.len(),
        old(accounts).users@[k].email@ == normal@,
        0 <= j < old(accounts).users.len(),
    ensures
        admin matches Err(reply) ==> r.status == reply.status && final(accounts).users@ == old(
            accounts).users@,
        admin matches Ok(user) ==> lowered(trimmed(email@)) == lowered(user.email@) && form.active@
            != "1"@ ==> r.status == 400 && final(accounts).users@ == old(accounts).users@,
        admin matches Ok(user) ==> lowered(trimmed(email@)) != lowered(user.email@) || form.active@
            == "1"@ ==> {
            &&& r.status == 303
            &&& final(accounts).users.len() == old(accounts).users.len()
            &&& final(accounts).users@[k].is_active == (form.active@ == "1"@)
            &&& j != k ==> final(accounts).users@[j] == old(accounts).users@[j]
        },
{
    let before = *old(accounts);
    let fits = has_email(normal@);
    assert forall|i: int| 0 <= i < k implies !fits(#[trigger] before.users@[i]) by {
        assert(before.users@[i].email@ != before.users@[k].email@);
    }
    lemma_only(before.users@, fits, k);
    lemma_first(before.users@, fits, 0);
}

/// An admin gives an account an app, or takes it away; whoever is no admin does
/// neither.
pub proof fn an_admin_gives_and_takes_access(
    accounts: &mut Accounts,
    asked: &mut Accounts,
    after: Accounts,
    cookies: Option<&str>,
    form: AccessChange,
    email: &str,
    normal: String,
    app: &str,
    token: &str,
    secret: &str,
    now: u64,
    k: int,
    user: User,
    can: bool,
    admin: Result<User, Reply>,
    r: Reply,
)
    requires
        old(accounts).wf(),
        *old(accounts) == *old(asked),
        after == *final(accounts),
        token@ == form.token@,
        email@ == form.email@,
        app@ == form.app@,
        call_ensures(normalise, (email,), normal),
        call_ensures(require_form, (asked, cookies, secret, token, now), admin),
        call_ensures(change_access, (accounts, cookies, &form, secret, now), r),
        0 <= k < old(accounts).users.len(),
        old(accounts).users@[k].email@ == normal@,
        user.id@ == old(accounts).users@[k].id@,
        call_ensures(has_grant, (&after, &user, app), can),
    ensures
        admin matches Err(reply) ==> r.status == reply.status && after.grants@ == old(
            accounts).grants@,
        admin is Ok && form.allow@ == "1"@ && is_slug(app@) ==> can && r.status == 303,
        admin is Ok && form.allow@ == "1"@ && !is_slug(app@) ==> r.status == 400 && after.grants@
            == old(accounts).grants@,
        admin is Ok && form.allow@ != "1"@ ==> !can && r.status == 303,
        after.users@ == old(accounts).users@,
{
    let before = *old(accounts);
    let named = has_email(normal@);
    assert forall|i: int| 0 <= i < k implies !named(#[trigger] before.users@[i]) by {
        assert(before.users@[i].email@ != before.users@[k].email@);
    }
    lemma_only(before.users@, named, k);
    let fits = |g: Grant| crate::accounts::users::is_grant(g, user.id@, app@);
    lemma_first(after.grants@, fits, 0);
    let p = first_from(after.grants@, fits, 0);
    if admin is Ok && form.allow@ == "1"@ && is_slug(app@) {
        let q = first_from(before.grants@, fits, 0);
        lemma_first(before.grants@, fits, 0);
        assert(fits(after.grants@[q]));
        assert(p <= q) by {
            if p > q {
                assert(!fits(after.grants@[q]));
            }
        }
    }
    if admin is Ok && form.allow@ != "1"@ {
        let stays = |g: Grant| outlives(g, before.by_email(normal@), app@);
        lemma_kept(before.grants@, stays);
        if p < after.grants.len() {
            assert(fits(after.grants@[p]));
            assert(stays(after.grants@[p]));
        }
    }
}

/// An admin chooses a gate that there is for an app; nothing else of the app changes.
pub proof fn an_admin_chooses_a_gate(
    accounts: &mut Accounts,
    asked: &mut Accounts,
    cookies: Option<&str>,
    form: GateChange,
    token: &str,
    meta: PageMeta,
    secret: &str,
    now: u64,
    written: bool,
    admin: Result<User, Reply>,
    r: Result<PageMeta, Reply>,
    told: Reply,
)
    requires
        *old(accounts) == *old(asked),
        token@ == form.token@,
        call_ensures(require_form, (asked, cookies, secret, token, now), admin),
        call_ensures(change_gate, (accounts, cookies, &form, meta, secret, now), r),
        call_ensures(gate_changed, (written,), told),
    ensures
        r is Ok == (admin is Ok && is_slug(form.app@) && (form.gate@ == "public"@ || form.gate@
            == "authenticated"@ || form.gate@ == "granted"@)),
        admin is Ok && r is Err ==> r->Err_0.status == 400,
        admin is Err ==> r->Err_0.status == admin->Err_0.status,
        r matches Ok(m) ==> m.gate@ == form.gate@ && m.hidden == meta.hidden && m.listed
            == meta.listed && m.spa == meta.spa && m.rules == meta.rules && m.allow_http
            == meta.allow_http,
        written ==> told.status == 303,
        !written ==> told.status == 500,
{
}

/// The admin page is an admin's, and no browser keeps it.
pub proof fn the_admin_page_is_not_kept(
    accounts: &mut Accounts,
    asked: &mut Accounts,
    cookies: Option<&str>,
    apps: Vec<(String, String)>,
    secret: &str,
    now: u64,
    admin: Result<User, Reply>,
    r: Reply,
)
    requires
        *old(accounts) == *old(asked),
        call_ensures(require_admin, (asked, cookies, now), admin),
        call_ensures(page, (accounts, cookies, &apps, secret, now), r),
    ensures
        admin is Ok ==> r.status == 200 && pairs(r.headers@).contains(
            ("cache-control"@, "no-store"@),
        ),
        admin matches Err(reply) ==> r.status == reply.status,
{
    if admin is Ok {
        let headers = pairs(r.headers@);
        assert(headers[1] == ("cache-control"@, "no-store"@));
    }
}

/// The kinds of files that can belong to a slug are told apart.
pub proof fn kinds_of_files_differ(
    i: usize,
    j: usize,
    a: &'static str,
    b: &'static str,
)
    requires
        i < j < 8,
        call_ensures(sidecar_name, (i,), a),
        call_ensures(sidecar_name, (j,), b),
    ensures
        a@ != b@,
{
    reveal_strlit("html");
    reveal_strlit("meta");
    reveal_strlit("icon");
    reveal_strlit("notes");
    reveal_strlit("source");
    reveal_strlit("secrets");
    reveal_strlit("jobs");
    reveal_strlit("migrations");
    assert("html"@[0] == 'h' && "meta"@[0] == 'm' && "icon"@[0] == 'i' && "notes"@[0] == 'n'
        && "jobs"@[0] == 'j');
    assert("source"@.len() == 6 && "secrets"@.len() == 7 && "migrations"@.len() == 10);
    assert("meta"@.len() == 4 && "html"@.len() == 4 && "icon"@.len() == 4 && "notes"@.len() == 5
        && "jobs"@.len() == 4);
}

/// What is removed goes into the trash under the time of its removal and its name, with
/// a dash for each slash; and under the first number behind that which is free, where
/// something has the name already.
pub proof fn where_a_removal_is_found(
    config: Config,
    slug: &str,
    at: u64,
    taken: Vec<String>,
    flat: String,
    title: Seq<char>,
    r: String,
)
    requires
        call_ensures(replace_char, (slug, '/', "-"), flat),
        title == digits(at as nat) + "-"@ + flat@,
        call_ensures(trash_dir, (&config, slug, at, &taken), r),
    ensures
        !texts(taken@).contains(title) ==> r@ == inside(
            inside(config.data_dir@, ".trash"@),
            title,
        ),
        texts(taken@).contains(title) && !texts(taken@).contains(title + "~1"@) ==> r@ == inside(
            inside(config.data_dir@, ".trash"@),
            title + "~1"@,
        ),
        texts(taken@).contains(title) && texts(taken@).contains(title + "~1"@) && !texts(
            taken@,
        ).contains(title + "~2"@) ==> r@ == inside(
            inside(config.data_dir@, ".trash"@),
            title + "~2"@,
        ),
{
    let all = texts(taken@);
    removal_goes_to_a_free_place(all, slug@, at);
    assert(title == crate::platform::trash::epitaph(slug@, at));
    reveal_strlit("~");
    reveal_strlit("~1");
    reveal_strlit("~2");
    assert(digits(1) =~= seq!['1']);
    assert(digits(2) =~= seq!['2']);
    assert(title + "~"@ + digits(1) =~= title + "~1"@);
    assert(title + "~"@ + digits(2) =~= title + "~2"@);
    if all.contains(title) && !all.contains(title + "~1"@) {
        lemma_numbered(all, title, 1);
    }
    if all.contains(title) && all.contains(title + "~1"@) && !all.contains(title + "~2"@) {
        lemma_numbered(all, title, 2);
    }
}

/// The first free name is the one that is found.
proof fn lemma_numbered(taken: Seq<Seq<char>>, name: Seq<char>, n: nat)
    requires
        !taken.contains(nth_name(name, n)),
        forall|m: nat| m < n ==> taken.contains(#[trigger] nth_name(name, m)),
    ensures
        free_name(taken, name) == nth_name(name, n),
{
    assert(is_first_free(taken, name, n));
    let k = choose|k: nat| is_first_free(taken, name, k);
    assert(is_first_free(taken, name, k));
    if k < n {
        assert(taken.contains(nth_name(name, k)));
    }
    if n < k {
        assert(taken.contains(nth_name(name, n)));
    }
}

/// What is removed goes into the trash, by the time of its removal, to a place that
/// nothing else has.
pub proof fn what_is_removed_goes_to_a_free_place(
    config: Config,
    slug: &str,
    at: u64,
    taken: Vec<String>,
    r: String,
)
    requires
        call_ensures(trash_dir, (&config, slug, at, &taken), r),
    ensures
        exists|name: Seq<char>| #[trigger]
            inside(inside(config.data_dir@, ".trash"@), name) == r@ && !texts(taken@).contains(
                name,
            ) && digits(at as nat).is_prefix_of(name),
{
    let all = texts(taken@);
    removal_goes_to_a_free_place(all, slug@, at);
    let title = crate::platform::trash::epitaph(slug@, at);
    let name = crate::platform::trash::free_name(all, title);
    let d = digits(at as nat);
    assert(title.subrange(0, d.len() as int) =~= d);
    assert(name.subrange(0, d.len() as int) =~= d);
    assert(d.is_prefix_of(name));
}

/// Removing a slug moves its directory and every file of it that there is, and no
/// other, each to a place of its own; it is refused only where there is nothing.
pub proof fn everything_of_a_slug_is_moved(
    config: Config,
    slug: &str,
    at: u64,
    dir: bool,
    there: Vec<bool>,
    taken: Vec<String>,
    place: String,
    i: usize,
    kind: &'static str,
    r: Result<Vec<Move>, String>,
)
    requires
        there.len() == 8,
        i < 8,
        call_ensures(trash_dir, (&config, slug, at, &taken), place),
        call_ensures(sidecar_name, (i,), kind),
        call_ensures(remove, (&config, slug, at, dir, &there, &taken), r),
    ensures
        !is_slug(slug@) ==> r is Err,
        is_slug(slug@) && (dir || there@[i as int]) ==> r is Ok,
        is_slug(slug@) && !dir && (forall|k: int| 0 <= k < 8 ==> !#[trigger] there@[k]) ==> r is Err,
        r matches Ok(moves) ==> dir ==> moves.len() > 0 && moves@[0].from@ == inside(
            config.data_dir@,
            slug@,
        ) && moves@[0].to@ == inside(place@, "app"@),
        r matches Ok(moves) ==> there@[i as int] ==> exists|n: int|
            0 <= n < moves.len() && (#[trigger] moves@[n]).from@ == inside(
                config.data_dir@,
                slug@ + "."@ + kind@,
            ) && moves@[n].to@ == inside(place@, "slug."@ + kind@),
{
    if !dir && (forall|k: int| 0 <= k < 8 ==> !#[trigger] there@[k]) {
        lemma_none_moved(config, slug@, place@, there@, 8);
    }
    if r is Err && is_slug(slug@) {
        assert(!there@[i as int]);
    }
    if let Ok(moves) = r {
        let view = moves_view(moves@);
        assert(view.len() == moves.len());
        assert(forall|n: int| 0 <= n < moves.len() ==> #[trigger] view[n] == moves@[n]@);
        if dir {
            assert(view[0] == moves@[0]@);
        }
        if there@[i as int] {
            let n = lemma_moved(config, slug@, place@, there@, 8, i as int);
            let first = if dir {
                1int
            } else {
                0
            };
            assert(view[first + n] == moves@[first + n]@);
            assert(slug@ + ("."@ + kind@) =~= slug@ + "."@ + kind@);
            assert(moves@[first + n].from@ == inside(
                config.data_dir@,
                slug@ + "."@ + kind@,
            ));
        }
    }
}

proof fn lemma_moved(
    config: Config,
    slug: Seq<char>,
    place: Seq<char>,
    there: Seq<bool>,
    n: int,
    i: int,
) -> (k: int)
    requires
        0 <= i < n,
        there[i],
    ensures
        0 <= k < sidecar_moves(config, slug, place, there, n).len(),
        sidecar_moves(config, slug, place, there, n)[k] == crate::platform::trash::sidecar_move(
            config,
            slug,
            place,
            i,
        ),
    decreases n,
{
    let before = sidecar_moves(config, slug, place, there, n - 1);
    if i == n - 1 {
        before.len() as int
    } else {
        lemma_moved(config, slug, place, there, n - 1, i)
    }
}

proof fn lemma_none_moved(
    config: Config,
    slug: Seq<char>,
    place: Seq<char>,
    there: Seq<bool>,
    n: int,
)
    requires
        0 <= n <= 8,
        forall|k: int| 0 <= k < 8 ==> !#[trigger] there[k],
    ensures
        sidecar_moves(config, slug, place, there, n).len() == 0,
    decreases n,
{
    if n > 0 {
        assert(!there[n - 1]);
        lemma_none_moved(config, slug, place, there, n - 1);
    }
}

/// No more is moved than there is.
pub proof fn nothing_else_is_moved(
    config: Config,
    slug: &str,
    at: u64,
    dir: bool,
    there: Vec<bool>,
    taken: Vec<String>,
    moves: Vec<Move>,
)
    requires
        there.len() == 8,
        call_ensures(
            remove,
            (&config, slug, at, dir, &there, &taken),
            Ok::<Vec<Move>, String>(moves),
        ),
    ensures
        moves.len() == there@.filter(|b: bool| b).len() + if dir {
            1int
        } else {
            0
        },
{
    assert(moves_view(moves@).len() == moves.len());
    let place = crate::platform::trash::resting_place(config, slug@, at, texts(taken@));
    lemma_moves_len(config, slug@, place, there@, 8);
    assert(there@.take(8) =~= there@);
}

proof fn lemma_moves_len(
    config: Config,
    slug: Seq<char>,
    place: Seq<char>,
    there: Seq<bool>,
    n: int,
)
    requires
        0 <= n <= there.len(),
    ensures
        sidecar_moves(config, slug, place, there, n).len() == there.take(n).filter(
            |b: bool| b,
        ).len(),
    decreases n,
{
    reveal(Seq::filter);
    if n > 0 {
        lemma_moves_len(config, slug, place, there, n - 1);
        assert(there.take(n).drop_last() =~= there.take(n - 1));
        assert(there.take(n).last() == there[n - 1]);
    } else {
        assert(there.take(n).len() == 0);
    }
}

/// Removing a single page moves its file alone.
pub proof fn a_single_page_is_moved_alone(
    config: Config,
    slug: &str,
    at: u64,
    there: bool,
    taken: Vec<String>,
    place: String,
    r: Result<Move, String>,
)
    requires
        call_ensures(trash_dir, (&config, slug, at, &taken), place),
        call_ensures(remove_page_only, (&config, slug, at, there, &taken), r),
    ensures
        r is Ok == (is_slug(slug@) && there),
        r matches Ok(m) ==> m.from@ == inside(config.data_dir@, slug@ + ".html"@) && m.to@ == inside(
            place@,
            "slug.html"@,
        ),
{
}

/// A scaffold has five files: the app's name stands in its `Cargo.toml`, and the rest
/// is as it is given.
pub proof fn what_a_scaffold_holds(
    templates: Templates,
    cargo: &str,
    app: &str,
    base: &str,
    named: String,
    r: Vec<(String, String)>,
)
    requires
        cargo@ == templates.cargo@,
        call_ensures(replace_text, (cargo, "NAME", app), named),
        call_ensures(handler_files, (&templates, app, base), r),
    ensures
        r.len() == 5,
        r@[0].0@ == "Cargo.toml"@ && r@[0].1@ == named@,
        r@[1].0@ == "src/lib.rs"@ && r@[1].1@ == templates.lib@,
        r@[2].0@ == "migrations/001_initial.sql"@ && r@[2].1@ == templates.migration@,
        r@[3].0@ == "wit/toolsite.wit"@ && r@[3].1@ == templates.wit@,
        r@[4].0@ == "README.md"@,
{
    let all = pairs(r@);
    assert(all.len() == r.len());
    assert(forall|i: int| 0 <= i < all.len() ==> #[trigger] all[i] == (r@[i].0@, r@[i].1@));
    assert(all[0] == (r@[0].0@, r@[0].1@));
    assert(all[1] == (r@[1].0@, r@[1].1@));
    assert(all[2] == (r@[2].0@, r@[2].1@));
    assert(all[3] == (r@[3].0@, r@[3].1@));
    assert(all[4] == (r@[4].0@, r@[4].1@));
}

/// A scaffold is handed out under the app's name; one that could not be packed is a
/// 500, and one of an app that cannot be is a 400.
pub proof fn a_scaffold_is_named_for_its_app(
    config: Config,
    query: ScaffoldQuery,
    templates: Templates,
    app: &str,
    packed: Option<Vec<u8>>,
    r: Result<Download, Reply>,
    answer: Result<Download, Reply>,
)
    requires
        query.app matches Some(a) ==> a@ == app@,
        query.app is None ==> app@ == "myapp"@,
        call_ensures(handler_scaffold, (&config, &query, &templates), r),
        call_ensures(scaffold_answer, (app, packed), answer),
    ensures
        !is_slug(app@) ==> (r matches Err(reply) && reply.status == 400),
        is_slug(app@) ==> (r matches Err(reply) ==> reply.status == 500),
        r matches Ok(d) ==> d.disposition@ == "attachment; filename=\""@ + app@
            + "-handler.tar.gz\""@ && d.content_type@ == "application/gzip"@,
        packed matches Some(bytes) ==> (answer matches Ok(d) && d.body == bytes),
        packed is None ==> (answer matches Err(reply) && reply.status == 500),
{
}

/// The guide and the contract are handed out as they are.
pub proof fn the_guide_is_handed_out_as_it_is(text: &str, a: Reply, b: Reply)
    requires
        call_ensures(guide, (text,), a),
        call_ensures(wit, (text,), b),
    ensures
        a.status == 200 && a.body@ == text@,
        b.status == 200 && b.body@ == text@,
{
}

/// What keeps a page out of a browser's cache.
pub proof fn what_is_not_kept_says_so(r: (&'static str, &'static str))
    requires
        call_ensures(no_store, (), r),
    ensures
        r.0@ == "cache-control"@ && r.1@ == "no-store"@,
{
}

/// A scaffold unpacks into a directory of its own: each of its files is packed below the
/// name of the app with `-handler` behind it, readable by everybody.
pub proof fn a_scaffold_unpacks_into_its_own_directory(
    config: Config,
    query: ScaffoldQuery,
    templates: Templates,
    app: &str,
    base: &str,
    files: Vec<(String, String)>,
    entries: Seq<(Seq<char>, u32, Seq<char>)>,
    packed: Option<Vec<u8>>,
    r: Result<Download, Reply>,
)
    requires
        query.app matches Some(a) && a@ == app@,
        is_slug(app@),
        base@ == match config.base_url {
            Some(b) => b@,
            None => config.local_base@,
        },
        call_ensures(handler_files, (&templates, app, base), files),
        entries.len() == files.len(),
        forall|i: int|
            #![trigger entries[i]]
            0 <= i < entries.len() ==> entries[i] == (
                app@ + "-handler/"@ + files@[i].0@,
                0o644u32,
                files@[i].1@,
            ),
        call_ensures(pack, (app, &files), packed),
        call_ensures(handler_scaffold, (&config, &query, &templates), r),
    ensures
        packed matches Some(bytes) ==> (tar_bytes(entries) matches Some(archive) && gzipped(archive)
            == Some(bytes@)),
        packed is Some == r is Ok,
        r matches Ok(d) ==> d.body@ == packed->0@,
{
    let named = pairs(files@);
    assert(named.len() == files.len());
    let inner = crate::platform::scaffold::in_directory(app@, named);
    assert forall|i: int| 0 <= i < inner.len() implies inner[i] == entries[i] by {
        assert(named[i] == (files@[i].0@, files@[i].1@));
    }
    assert(inner =~= entries);
}

/// What belongs to the site itself is in a directory that no slug can name.
pub proof fn what_is_the_sites_is_out_of_reach(config: Config, accounts: String, key: String)
    requires
        call_ensures(site_db_path, (&config,), accounts),
        call_ensures(key_path, (&config,), key),
    ensures
        accounts@ == inside(inside(config.data_dir@, ".site"@), "auth.db"@),
        key@ == inside(inside(config.data_dir@, ".site"@), "secret.key"@),
        !is_slug(".site"@),
{
    reveal_strlit(".site");
    crate::text::lemma_split_len(".site"@, '/');
    crate::text::lemma_split_whole(".site"@, '/');
    if is_slug(".site"@) {
        crate::content::slug::slug_stays_inside(".site"@);
        let first = crate::text::split(".site"@, '/')[0];
        crate::content::slug::lemma_first_piece(".site"@, '/');
        assert(crate::content::slug::is_segment(first));
        assert(crate::content::slug::is_segment_char(first[0]));
    }
}

} // verus!
