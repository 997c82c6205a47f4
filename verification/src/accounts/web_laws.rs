//! What holds of signing in and out on the web: each law is about what a function is
//! handed and what it gives back.
use crate::accounts::rows::lemma_kept;
use crate::accounts::users::{
    app_cookie_name, app_cookie_path, app_session_user, invitee, opt_str, owner_of,
    site_session_user, survives, Accounts, Session, User,
};
use crate::accounts::web::{
    app_token_from_cookies, clear_cookie_header, cookie_from, cookie_value, current_app_user,
    current_site_user, handoff_with, header_from, header_value, invite_url, is_visitor_navigation,
    login_submit_with, logout, me, safe_next, set_app_cookie_header, set_cookie_header, setup_form,
    setup_submit_with, to_sign_in, token_from_cookies, Credentials, HandoffParams,
};
use crate::config::Config;
use crate::content::slug::is_slug;
use crate::crypto::hash_token;
use crate::encode::{json_string, percent};
use crate::reply::Reply;
use crate::text::{
    decimal, digits, find, lemma_find, lemma_split_head, lemma_split_whole, lowered, pairs, split,
};
use crate::text_laws::{is_blank, is_tight, lemma_trimmed};
use vstd::prelude::*;

verus! {

/// A cookie is read by its name, whatever blanks stand around it.
pub proof fn a_cookie_is_read_by_its_name(
    front: Seq<char>,
    own: Seq<char>,
    value: Seq<char>,
    header: &str,
    name: &str,
    r: Option<String>,
)
    requires
        is_blank(front),
        is_tight(own + "="@ + value),
        !own.contains('='),
        !own.contains(';'),
        !value.contains(';'),
        header@ == front + own + "="@ + value,
        call_ensures(cookie_value, (Some(header), name), r),
    ensures
        own == name@ ==> (r matches Some(v) && v@ == value),
        own != name@ ==> r is None,
{
    reveal_strlit("=");
    let part = own + "="@ + value;
    let h = header@;
    assert(!h.contains(';')) by {
        if h.contains(';') {
            let k = h.index_of(';');
            let n = front.len() as int;
            let m = own.len() as int;
            if k < n {
                assert(front[k] == ';');
            } else if k < n + m {
                assert(own[k - n] == ';');
            } else if k > n + m {
                assert(value[k - n - m - 1] == ';');
            }
        }
    }
    lemma_split_whole(h, ';');
    let empty = Seq::<char>::empty();
    assert(h =~= front + part + empty);
    lemma_trimmed(front, part, empty);
    reveal_with_fuel(cookie_from, 2);
    assert(split(h, ';')[0] == h);
    lemma_divided(own, value);
}

/// A part is divided at its first `=`.
proof fn lemma_divided(own: Seq<char>, value: Seq<char>)
    requires
        !own.contains('='),
    ensures
        (own + "="@ + value).contains('='),
        (own + "="@ + value).take(find(own + "="@ + value, '=')) == own,
        (own + "="@ + value).skip(find(own + "="@ + value, '=') + 1) == value,
{
    reveal_strlit("=");
    let part = own + "="@ + value;
    let n = own.len() as int;
    assert(part[n] == '=');
    assert(part.contains('='));
    lemma_find(part, '=');
    let k = find(part, '=');
    if k < n {
        assert(own[k] == '=');
    } else if n < k {
        assert(part.take(k)[n] == '=');
    }
    assert(part.take(n) =~= own);
    assert(part.skip(n + 1) =~= value);
}

/// Of several cookies the first of the name counts.
pub proof fn the_first_cookie_of_a_name_counts(
    first: &str,
    rest: &str,
    header: &str,
    name: &str,
    a: Option<String>,
    b: Option<String>,
    none: Option<String>,
    r: Option<String>,
)
    requires
        !first@.contains(';'),
        header@ == first@ + seq![';'] + rest@,
        call_ensures(cookie_value, (Some(first), name), a),
        call_ensures(cookie_value, (Some(rest), name), b),
        call_ensures(cookie_value, (None, name), none),
        call_ensures(cookie_value, (Some(header), name), r),
    ensures
        none is None,
        r is Some == (a is Some || b is Some),
        a is Some ==> r->0@ == a->0@,
        a is None && b is Some ==> r->0@ == b->0@,
{
    lemma_split_whole(first@, ';');
    lemma_split_head(first@, ';', rest@);
    let parts = split(rest@, ';');
    lemma_shifted(first@, parts, name@, 0);
    reveal_with_fuel(cookie_from, 2);
    assert(split(first@, ';')[0] == first@);
    assert((seq![first@] + parts)[0] == first@);
}

proof fn lemma_shifted(one: Seq<char>, parts: Seq<Seq<char>>, name: Seq<char>, i: int)
    requires
        0 <= i <= parts.len(),
    ensures
        cookie_from(seq![one] + parts, name, i + 1) == cookie_from(parts, name, i),
    decreases parts.len() - i,
{
    if i < parts.len() {
        assert((seq![one] + parts)[i + 1] == parts[i]);
        lemma_shifted(one, parts, name, i + 1);
    }
}

/// The cookies are named apart: the site's and one for each app.
pub proof fn each_session_has_its_own_cookie(
    header: Option<&str>,
    app: &str,
    site: Option<String>,
    own: Option<String>,
    by_site: Option<String>,
    by_app: Option<String>,
    name: &str,
    site_name: &str,
)
    requires
        name@ == "ts_app_"@ + app@,
        site_name@ == "ts_session"@,
        call_ensures(token_from_cookies, (header,), site),
        call_ensures(app_token_from_cookies, (header, app), own),
        call_ensures(cookie_value, (header, site_name), by_site),
        call_ensures(cookie_value, (header, name), by_app),
    ensures
        site is Some == by_site is Some,
        site is Some ==> site->0@ == by_site->0@,
        own is Some == by_app is Some,
        own is Some ==> own->0@ == by_app->0@,
{
}

/// The site's cookie is sent everywhere on the site for a fortnight, an app's only
/// below the app's own path; neither is seen by scripts or sent over plain HTTP.
pub proof fn how_cookies_are_set(
    app: &str,
    token: &str,
    max_age: u64,
    age: String,
    site: String,
    own: String,
    cleared: String,
    name: String,
    path: String,
)
    requires
        call_ensures(set_cookie_header, (token,), site),
        call_ensures(decimal, (max_age,), age),
        call_ensures(set_app_cookie_header, (app, token, max_age), own),
        call_ensures(clear_cookie_header, (), cleared),
        call_ensures(app_cookie_name, (app,), name),
        call_ensures(app_cookie_path, (app,), path),
    ensures
        site@ == "ts_session="@ + token@
            + "; Path=/; HttpOnly; SameSite=Lax; Secure; Max-Age=1209600"@,
        own@ == "ts_app_"@ + app@ + "="@ + token@ + "; Path=/p/"@ + app@
            + "/; HttpOnly; SameSite=Lax; Secure; Max-Age="@ + age@,
        cleared@ == "ts_session=; Path=/; HttpOnly; SameSite=Lax; Secure; Max-Age=0"@,
        name@ == "ts_app_"@ + app@,
        path@ == "/p/"@ + app@ + "/"@,
{
    reveal_strlit("ts_session=");
    reveal_strlit("ts_session");
    reveal_strlit("=");
    reveal_strlit("; Path=/; HttpOnly; SameSite=Lax; Secure; Max-Age=1209600");
    reveal_strlit("; Path=/; HttpOnly; SameSite=Lax; Secure; Max-Age=");
    reveal_strlit("=; Path=/; HttpOnly; SameSite=Lax; Secure; Max-Age=0");
    reveal_strlit("ts_session=; Path=/; HttpOnly; SameSite=Lax; Secure; Max-Age=0");
    reveal_strlit("; Path=/p/");
    reveal_strlit("; Path=");
    reveal_strlit("/p/");
    reveal_strlit("/");
    reveal_strlit("/; HttpOnly; SameSite=Lax; Secure; Max-Age=");
    reveal_strlit("; HttpOnly; SameSite=Lax; Secure; Max-Age=");
    reveal_with_fuel(digits, 8);
    assert(digits(1_209_600) =~= seq!['1', '2', '0', '9', '6', '0', '0']);
    assert(site@ =~= "ts_session="@ + token@
        + "; Path=/; HttpOnly; SameSite=Lax; Secure; Max-Age=1209600"@);
    assert(own@ =~= "ts_app_"@ + app@ + "="@ + token@ + "; Path=/p/"@ + app@
        + "/; HttpOnly; SameSite=Lax; Secure; Max-Age="@ + age@);
    assert(cleared@ =~= "ts_session=; Path=/; HttpOnly; SameSite=Lax; Secure; Max-Age=0"@);
}

/// Where to go next is a path of this site: the one that was asked for where it is
/// one, and the root otherwise.
pub proof fn the_next_page_is_on_this_site(next: Option<&str>, r: String)
    requires
        call_ensures(safe_next, (next,), r),
    ensures
        r@.len() > 0 && r@[0] == '/',
        r@.len() > 1 ==> r@[1] != '/',
        next matches Some(n) ==> n@.len() > 0 && n@[0] == '/' && (n@.len() > 1 ==> n@[1] != '/')
            ==> r@ == n@,
        r@ != "/"@ ==> (next matches Some(n) && r@ == n@),
{
    reveal_strlit("/");
    reveal_strlit("//");
    if let Some(n) = next {
        let s = n@;
        if s.len() > 0 && s[0] == '/' {
            assert(s.subrange(0, 1) =~= "/"@);
            assert("/"@.is_prefix_of(s));
        }
        if "/"@.is_prefix_of(s) {
            assert(s.subrange(0, 1)[0] == '/');
        }
        if s.len() > 1 && s[0] == '/' && s[1] == '/' {
            assert(s.subrange(0, 2) =~= "//"@);
            assert("//"@.is_prefix_of(s));
        }
        if "//"@.is_prefix_of(s) {
            assert(s.subrange(0, 2)[1] == '/');
        }
    }
}

/// The first value of a header counts.
pub proof fn the_first_value_of_a_header_counts(
    headers: Vec<(String, String)>,
    name: &str,
    i: int,
    r: Option<&str>,
)
    requires
        call_ensures(header_value, (&headers, name), r),
        0 <= i <= headers.len(),
        forall|j: int| 0 <= j < i ==> (#[trigger] headers@[j]).0@ != name@,
    ensures
        i < headers.len() && headers@[i].0@ == name@ ==> (r matches Some(v) && v@
            == headers@[i].1@),
        i == headers.len() ==> r is None,
{
    lemma_header(headers@, name@, 0, i);
}

proof fn lemma_header(headers: Seq<(String, String)>, name: Seq<char>, from: int, i: int)
    requires
        0 <= from <= i <= headers.len(),
        forall|j: int| from <= j < i ==> (#[trigger] headers[j]).0@ != name,
    ensures
        i < headers.len() && headers[i].0@ == name ==> header_from(headers, name, from) == Some(
            headers[i].1@,
        ),
        i == headers.len() ==> header_from(headers, name, from) is None,
    decreases i - from,
{
    if from < i {
        assert(headers[from].0@ != name);
        lemma_header(headers, name, from + 1, i);
    }
}

/// A visitor navigates where the browser says that it loads a document, or says
/// nothing; a script's request is none.
pub proof fn scripts_do_not_navigate(
    headers: Vec<(String, String)>,
    mode: Option<&str>,
    dest: Option<&str>,
    m: &str,
    d: &str,
    r: bool,
)
    requires
        m@ == "sec-fetch-mode"@,
        d@ == "sec-fetch-dest"@,
        call_ensures(header_value, (&headers, m), mode),
        call_ensures(header_value, (&headers, d), dest),
        call_ensures(is_visitor_navigation, (&headers,), r),
    ensures
        mode is None && dest is None ==> r,
        mode matches Some(x) ==> lowered(x@) != "navigate"@ ==> !r,
        dest matches Some(x) ==> lowered(x@) != "document"@ ==> !r,
        (mode matches Some(x) && lowered(x@) == "navigate"@) && (dest matches Some(x) && lowered(x@)
            == "document"@) ==> r,
{
}

/// Signing in leads on to the page that was asked for and sets the site's cookie;
/// where it fails it is a 401 and nothing changes.
pub proof fn signing_in_sets_the_cookie(
    accounts: &mut Accounts,
    credentials: Credentials,
    asked: Option<&str>,
    token: String,
    given: &str,
    hash: String,
    next: String,
    cookie: String,
    now: u64,
    r: Reply,
)
    requires
        now <= u64::MAX - 1_209_600,
        opt_str(asked) == crate::accounts::users::owned_text(&credentials.next),
        call_ensures(safe_next, (asked,), next),
        given@ == token@,
        call_ensures(hash_token, (given,), hash),
        call_ensures(set_cookie_header, (given,), cookie),
        call_ensures(login_submit_with, (accounts, &credentials, token, now), r),
    ensures
        r.status == 303 || r.status == 401,
        r.status == 401 ==> *final(accounts) == *old(accounts),
        r.status == 303 ==> {
            &&& pairs(r.headers@) == seq![
                ("location"@, next@),
                ("set-cookie"@, cookie@),
            ]
            &&& final(accounts).sessions.len() == old(accounts).sessions.len() + 1
            &&& final(accounts).sessions@.last().token_hash@ == hash@
            &&& final(accounts).sessions@.last().scope is None
            &&& final(accounts).sessions@.last().expires_at == now + 1_209_600
        },
{
    if r.status == 303 {
        assert(r@.headers =~= seq![("location"@, next@), ("set-cookie"@, cookie@)]);
    }
}

/// Signing out takes the cookie away and ends the session that it names; without a
/// cookie no session changes.
pub proof fn signing_out_takes_the_cookie_away(
    accounts: &mut Accounts,
    cookies: Option<&str>,
    token: Option<String>,
    given: &str,
    hash: String,
    cleared: String,
    r: Reply,
)
    requires
        call_ensures(token_from_cookies, (cookies,), token),
        token matches Some(t) ==> t@ == given@,
        call_ensures(hash_token, (given,), hash),
        call_ensures(clear_cookie_header, (), cleared),
        call_ensures(logout, (accounts, cookies), r),
    ensures
        r.status == 303,
        pairs(r.headers@) == seq![("location"@, "/"@), ("set-cookie"@, cleared@)],
        token is None ==> final(accounts).sessions@ == old(accounts).sessions@,
        token is Some ==> forall|i: int|
            0 <= i < final(accounts).sessions.len() ==> (#[trigger] final(
                accounts).sessions@[i]).token_hash@ != hash@,
{
    assert(r@.headers =~= seq![("location"@, "/"@), ("set-cookie"@, cleared@)]);
    if token is Some {
        let before = *old(accounts);
        let fits = |s: Session| survives(s, given@, owner_of(before, given@));
        lemma_kept(before.sessions@, fits);
        assert forall|i: int| 0 <= i < final(accounts).sessions.len() implies (#[trigger] final(
            accounts).sessions@[i]).token_hash@ != hash@ by {
            assert(fits(before.sessions@.filter(fits)[i]));
        }
    }
}

/// Whoever calls is who the site's cookie says, and within an app who the app's own
/// cookie says; without the cookie it is nobody.
pub proof fn the_cookie_says_who_calls(
    accounts: &mut Accounts,
    apps: &mut Accounts,
    asked: &mut Accounts,
    asked_app: &mut Accounts,
    cookies: Option<&str>,
    app: &str,
    token: Option<String>,
    own: Option<String>,
    given: &str,
    given_own: &str,
    now: u64,
    x: Option<User>,
    y: Option<User>,
    site: Option<User>,
    within: Option<User>,
)
    requires
        *old(accounts) == *old(asked),
        *old(apps) == *old(asked_app),
        call_ensures(token_from_cookies, (cookies,), token),
        call_ensures(app_token_from_cookies, (cookies, app), own),
        token matches Some(t) ==> t@ == given@,
        own matches Some(t) ==> t@ == given_own@,
        call_ensures(site_session_user, (asked, given, now), x),
        call_ensures(app_session_user, (asked_app, given_own, app, now), y),
        call_ensures(current_site_user, (accounts, cookies, now), site),
        call_ensures(current_app_user, (apps, app, cookies, now), within),
    ensures
        token is None ==> site is None,
        token is Some ==> site is Some == x is Some && (site is Some ==> site->0.id@ == x->0.id@),
        own is None ==> within is None,
        own is Some ==> within is Some == y is Some && (within is Some ==> within->0.id@
            == y->0.id@),
{
}

/// Whoever is signed in is told who they are, and nobody else is.
pub proof fn who_one_is_is_told(user: Option<User>, r: Reply)
    requires
        call_ensures(me, (&user,), r),
    ensures
        user is Some ==> r.status == 200,
        user matches Some(u) ==> r.body@ == "{\"email\":"@ + json_string(u.email@) + ",\"id\":"@
            + json_string(u.id@) + "}"@,
        user is None ==> r.status == 401,
{
}

/// The way to the sign-in page keeps the page that was asked for.
pub proof fn the_way_to_sign_in(next: &str, r: Reply)
    requires
        call_ensures(to_sign_in, (next,), r),
    ensures
        r.status == 303,
        pairs(r.headers@) == seq![("location"@, "/auth/login?next="@ + percent(next@))],
{
    assert(r@.headers =~= seq![("location"@, "/auth/login?next="@ + percent(next@))]);
}

/// A script is handed no app session, nor is an app that cannot have one; nobody is
/// without the site's cookie. Whoever is, is sent on with the app's own cookie, for
/// as long as the session lasts.
pub proof fn an_app_session_is_handed_to_visitors(
    accounts: &mut Accounts,
    params: HandoffParams,
    headers: Vec<(String, String)>,
    asked: Option<&str>,
    token: String,
    given: &str,
    hash: String,
    next: String,
    app: &str,
    age: u64,
    cookie: String,
    visits: bool,
    cookies: Option<&str>,
    cookie_name: &str,
    site: Option<String>,
    now: u64,
    r: Reply,
)
    requires
        now <= u64::MAX - 86_400,
        app@ == params.app@,
        opt_str(asked) == crate::accounts::users::owned_text(&params.next),
        call_ensures(safe_next, (asked,), next),
        call_ensures(is_visitor_navigation, (&headers,), visits),
        cookie_name@ == "cookie"@,
        call_ensures(header_value, (&headers, cookie_name), cookies),
        call_ensures(token_from_cookies, (cookies,), site),
        given@ == token@,
        call_ensures(hash_token, (given,), hash),
        call_ensures(set_app_cookie_header, (app, given, age), cookie),
        call_ensures(handoff_with, (accounts, &params, &headers, token, now), r),
    ensures
        !is_slug(app@) || app@.contains('/') ==> r.status == 400 && *final(accounts) == *old(
            accounts),
        is_slug(app@) && !app@.contains('/') && !visits ==> r.status == 403 && *final(accounts)
            == *old(accounts),
        is_slug(app@) && !app@.contains('/') && visits ==> r.status == 303,
        site is None ==> *final(accounts) == *old(accounts),
        *final(accounts) != *old(accounts) ==> {
            let s = final(accounts).sessions@.last();
            &&& final(accounts).sessions.len() == old(accounts).sessions.len() + 1
            &&& s.token_hash@ == hash@
            &&& s.scope matches Some(a) && a@ == app@
            &&& s.expires_at <= now + 86_400
            &&& age == s.expires_at - now ==> pairs(r.headers@) == seq![
                ("location"@, next@),
                ("set-cookie"@, cookie@),
            ]
        },
{
    if *final(accounts) != *old(accounts) {
        if age == final(accounts).sessions@.last().expires_at - now {
            assert(r@.headers =~= seq![("location"@, next@), ("set-cookie"@, cookie@)]);
        }
    }
}

/// The page to choose a password on is there while the link works. Choosing one leads
/// to the root, signed in; where it is refused nothing changes.
pub proof fn choosing_a_password_signs_in(
    accounts: &mut Accounts,
    before: Accounts,
    token: &str,
    password: &str,
    salt: Vec<u8>,
    session: String,
    given: &str,
    cookie: String,
    now: u64,
    who: Option<User>,
    page: Reply,
    r: Reply,
)
    requires
        now <= u64::MAX - 1_209_600,
        before == *old(accounts),
        call_ensures(invitee, (&before, token, now), who),
        call_ensures(setup_form, (&before, token, now), page),
        given@ == session@,
        call_ensures(set_cookie_header, (given,), cookie),
        call_ensures(setup_submit_with, (accounts, token, password, &salt, session, now), r),
    ensures
        who is Some ==> page.status == 200,
        who is None ==> page.status == 410 && r.status == 400,
        r.status == 303 || r.status == 400,
        r.status == 400 ==> *final(accounts) == before,
        r.status == 303 ==> pairs(r.headers@) == seq![
            ("location"@, "/"@),
            ("set-cookie"@, cookie@),
        ] && final(accounts).sessions.len() == before.sessions.len() + 1,
{
    if r.status == 303 {
        assert(r@.headers =~= seq![("location"@, "/"@), ("set-cookie"@, cookie@)]);
    }
}

/// The link of an invitation names its token.
pub proof fn the_link_names_its_token(config: Config, token: &str, r: String)
    requires
        call_ensures(invite_url, (&config, token), r),
    ensures
        config.base_url matches Some(base) ==> r@ == base@ + "/auth/setup?token="@ + token@,
        config.base_url is None ==> r@ == config.local_base@ + "/auth/setup?token="@ + token@,
{
}

} // verus!
