//! What holds of serving: which answer comes first, who may see it, and what the
//! index shows.
use crate::accounts::users::{granted, Accounts, User};
use crate::config::Config;
use crate::content::serve::{
    admits, app_scoped_next, card_html, cards_html, cards_in_order, cards_of, gate_check,
    guest_request, handler_reply, head_of, id_of, index, index_html, is_hidden, is_index,
    is_reserved_header, on_index, order_cards, resolve, rest_of, route_page, routes, showing,
    spa_fallback, Candidate, Enclosing, Found, GuestReply, GuestRequest, PageCard, PageRoute,
    Relayed, Serve,
};
use crate::content::slug::{is_asset_path, is_slug};
use crate::content::store::{inside, PageMeta};
use crate::reply::Reply;
use crate::text::{digits, find, le, lemma_find, lowered, stripped_end};
use vstd::prelude::*;

verus! {

/// The code of an app answers before its client-side router: where there is no
/// file for a path and the app has a handler, the handler answers, whether the
/// app is client-routed or not.
pub proof fn the_handler_answers_before_the_router(
    config: Config,
    route: PageRoute,
    found: Found,
    r: Serve,
)
    requires
        !route.is_api,
        !found.asset && !found.direct && !found.index,
        found.handler,
        is_slug(route.app@),
        call_ensures(resolve, (&config, &route, &found), r),
    ensures
        r matches Serve::Handler { path } && path@ == inside(
            config.data_dir@,
            route.app@ + "/handler.wasm"@,
        ),
{
}

/// The index of a client-routed app answers only where there is neither a file
/// nor a handler; where the app is not client-routed either, nothing does.
pub proof fn the_router_comes_last(config: Config, route: PageRoute, found: Found, r: Serve)
    requires
        !route.is_api,
        !found.asset && !found.direct && !found.index,
        !found.handler,
        call_ensures(resolve, (&config, &route, &found), r),
    ensures
        found.spa matches Some(app) ==> (r matches Serve::Page { path } && path@ == inside(
            config.data_dir@,
            app@ + "/index.html"@,
        )),
        found.spa is None ==> (r matches Serve::Answer(reply) && reply.status == 404),
{
}

/// A file on disk is served as it is, before any page, index, handler or router.
pub proof fn an_exact_file_comes_first(config: Config, route: PageRoute, found: Found, r: Serve)
    requires
        !route.is_api,
        found.asset,
        call_ensures(resolve, (&config, &route, &found), r),
    ensures
        r matches Serve::Asset { path, .. } && path@ == inside(config.data_dir@, route.slug@),
{
}

/// A page comes before the index of a directory of the same name, and both before
/// the handler; the index is served where the path ends in a slash, and a path
/// without one is sent to the path with it.
pub proof fn a_page_comes_before_an_index(
    config: Config,
    route: PageRoute,
    found: Found,
    r: Serve,
)
    requires
        !route.is_api,
        !found.asset,
        found.direct || found.index,
        call_ensures(resolve, (&config, &route, &found), r),
    ensures
        found.direct ==> (r matches Serve::Page { path } && path@ == inside(
            config.data_dir@,
            route.slug@ + ".html"@,
        )),
        !found.direct && route.had_slash ==> (r matches Serve::Page { path } && path@ == inside(
            config.data_dir@,
            route.slug@ + "/index.html"@,
        )),
        !found.direct && !route.had_slash ==> (r matches Serve::Answer(reply) && reply.status == 308
            && reply.headers.len() == 1 && reply.headers@[0].0@ == "location"@
            && reply.headers@[0].1@ == "/p/"@ + route.slug@ + "/"@),
{
    if !found.direct && !route.had_slash {
        let reply = r->Answer_0;
        let shown = crate::text::pairs(reply.headers@);
        assert(shown.len() == reply.headers@.len());
        assert(shown[0] == (reply.headers@[0].0@, reply.headers@[0].1@));
    }
}

/// Under the reserved prefix the handler answers whatever is on disk, or nothing.
pub proof fn the_api_is_the_handlers(config: Config, route: PageRoute, found: Found, r: Serve)
    requires
        route.is_api,
        call_ensures(resolve, (&config, &route, &found), r),
    ensures
        found.handler && is_slug(route.app@) ==> (r matches Serve::Handler { path } && path@
            == inside(config.data_dir@, route.app@ + "/handler.wasm"@)),
        !found.handler ==> (r matches Serve::Answer(reply) && reply.status == 404),
{
}

/// Newest first: of two cards on the index that both have a time, the one that
/// stands first is not the older; a card without a time stands behind all that
/// have one; and of cards of one time the slugs are in order.
pub proof fn cards_stand_newest_first(cards: Vec<PageCard>, r: Vec<PageCard>, i: int, j: int)
    requires
        call_ensures(order_cards, (cards,), r),
        0 <= i < j < r.len(),
    ensures
        r@.to_multiset() == cards@.to_multiset(),
        r@[j].modified matches Some(y) ==> (r@[i].modified matches Some(x) && x >= y),
        r@[i].modified == r@[j].modified ==> le(r@[i].slug@, r@[j].slug@),
{
}

/// Cards one after another, from the front.
pub open spec fn listed(cards: Seq<PageCard>, now: u64) -> Seq<char>
    decreases cards.len(),
{
    if cards.len() == 0 {
        Seq::empty()
    } else {
        card_html(cards[0], now) + listed(cards.skip(1), now)
    }
}

/// Cards one after another are the same from the front and from the back.
proof fn lemma_listed(cards: Seq<PageCard>, now: u64)
    ensures
        cards_html(cards, now) == listed(cards, now),
    decreases cards.len(),
{
    if cards.len() == 1 {
        assert(cards.drop_last() =~= Seq::empty());
        assert(cards.skip(1) =~= Seq::empty());
        assert(cards_html(cards.drop_last(), now) =~= Seq::<char>::empty());
        assert(listed(cards.skip(1), now) =~= Seq::<char>::empty());
        assert(cards_html(cards, now) =~= listed(cards, now));
    } else if cards.len() > 1 {
        let front = cards.drop_last();
        let rest = cards.skip(1);
        assert(front.skip(1) =~= rest.drop_last());
        assert(front[0] == cards[0]);
        assert(rest.last() == cards.last());
        lemma_listed(front, now);
        lemma_listed(rest, now);
        lemma_listed(rest.drop_last(), now);
        let head = card_html(cards[0], now);
        let tail = card_html(cards.last(), now);
        assert(cards_html(cards, now) == cards_html(front, now) + tail);
        assert(listed(front, now) == head + listed(front.skip(1), now));
        assert(listed(rest, now) == cards_html(rest.drop_last(), now) + tail);
        assert(cards_html(cards, now) =~= listed(cards, now));
    }
}

/// The index lists, newest first, exactly the pages that are listed, not hidden and
/// open to the visitor: the markup of their cards stands in it in that order.
pub proof fn the_index_is_newest_first(
    accounts: Accounts,
    pages: Vec<Candidate>,
    visitor: Option<&User>,
    now: u64,
    r: Reply,
)
    requires
        call_ensures(index, (&accounts, pages, visitor, now), r),
    ensures
        r.status == 200,
        exists|cards: Seq<PageCard>, before: Seq<char>, after: Seq<char>|
            #![trigger before + listed(cards, now) + after]
            (cards.len() > 0 ==> r.body@ == before + listed(cards, now) + after)
                && (forall|i: int, j: int|
                #![trigger cards[i], cards[j]]
                0 <= i < j < cards.len() ==> (cards[j].modified matches Some(y) ==> (
                cards[i].modified matches Some(x) && x >= y))) && cards.to_multiset() == cards_of(
                pages@.filter(showing(accounts, id_of(visitor))),
            ).to_multiset(),
{
    let cards = choose|cards: Seq<PageCard>|
        is_index(cards, accounts, pages@, id_of(visitor)) && r@ == crate::reply::html(
            200,
            #[trigger] index_html(cards, now),
        );
    assert(cards_in_order(cards));
    lemma_listed(cards, now);
    let head = crate::ui::HEAD@ + "Pages</title><style>"@ + crate::content::serve::INDEX_STYLE@
        + "</style></head><body><div class=\"container\"><h1>Pages</h1><p class=\"count\">"@
        + crate::content::slug::escaped(crate::content::serve::count_label(cards.len()))
        + "</p>"@;
    let before = head
        + "<input type=\"search\" id=\"q\" placeholder=\"Filter pages…\" autocomplete=\"off\"><ul class=\"pages\" id=\"list\">"@;
    let after = "</ul><p class=\"no-match\" id=\"no-match\">No pages match that.</p></div>"@
        + crate::content::serve::INDEX_SEARCH_SCRIPT@ + "</body></html>"@;
    if cards.len() > 0 {
        assert(index_html(cards, now) =~= before + listed(cards, now) + after);
    }
    let shown = before + listed(cards, now) + after;
}

/// Who a gate lets in: everybody where it is public, whoever is signed in where
/// it asks for that, only those granted access where it asks for that, and nobody
/// where it asks for anything else.
pub proof fn whom_a_gate_lets_in(
    accounts: Accounts,
    gate: &str,
    app: &str,
    visitor: Option<&User>,
    r: bool,
)
    requires
        call_ensures(admits, (&accounts, gate, app, visitor), r),
    ensures
        gate@ == "public"@ ==> r,
        gate@ == "authenticated"@ ==> r == (visitor is Some),
        gate@ == "granted"@ ==> r == (visitor matches Some(user) && granted(
            accounts,
            user.id@,
            app@,
        )),
        r ==> gate@ == "public"@ || gate@ == "authenticated"@ || gate@ == "granted"@,
        r && visitor is None ==> gate@ == "public"@,
{
    reveal_strlit("public");
    reveal_strlit("authenticated");
    reveal_strlit("granted");
    assert("public"@.len() != "authenticated"@.len());
    assert("public"@.len() != "granted"@.len());
    assert("granted"@.len() != "authenticated"@.len());
}

/// A gate answers nothing to those it lets in, and something to everybody else. An
/// API call it does not let in gets a status and no redirect: 401 where nobody is
/// signed in, 403 where somebody is. A page gets a redirect where signing in or
/// the handoff can help, and 403 where neither can.
pub proof fn what_a_gate_answers(
    accounts: Accounts,
    gate: &str,
    app: &str,
    visitor: Option<&User>,
    site: Option<&User>,
    path: &str,
    is_api: bool,
    may_hand_off: bool,
    opens: bool,
    would_open: bool,
    r: Option<Reply>,
)
    requires
        call_ensures(admits, (&accounts, gate, app, visitor), opens),
        call_ensures(admits, (&accounts, gate, app, site), would_open),
        call_ensures(
            gate_check,
            (&accounts, gate, app, visitor, site, path, is_api, may_hand_off),
            r,
        ),
    ensures
        r is None == opens,
        !opens && is_api && visitor is None && site is None ==> r->0.status == 401,
        !opens && is_api && (visitor is Some || site is Some) ==> r->0.status == 403,
        !opens && !is_api && may_hand_off && would_open ==> r->0.status == 303 && r->0.headers@[0].1@
            == "/auth/handoff?app="@ + app@ + "&next="@ + crate::encode::percent(
            if path@ == "/p/"@ + app@ {
                path@ + "/"@
            } else {
                path@
            },
        ),
        !opens && !is_api && !(may_hand_off && would_open) && (visitor is Some || site is Some)
            ==> r->0.status == 403,
        !opens && !is_api && visitor is None && site is None ==> r->0.status != 401
            && r->0.status != 403,
{
    if !opens && !is_api && may_hand_off && would_open {
        let reply = r->0;
        let shown = crate::text::pairs(reply.headers@);
        assert(shown.len() == reply.headers@.len());
        assert(shown[0] == (reply.headers@[0].0@, reply.headers@[0].1@));
    }
}

/// One hidden part hides the whole, and nothing else does.
pub proof fn one_hidden_part_hides_all(hidden: Vec<bool>, r: bool, i: int)
    requires
        call_ensures(is_hidden, (&hidden,), r),
        0 <= i < hidden.len(),
    ensures
        hidden@[i] ==> r,
        r ==> hidden@.contains(true),
{
    if r {
        let k = choose|k: int| 0 <= k < hidden@.len() && #[trigger] hidden@[k];
        assert(hidden@[k] == true);
    }
}

/// A page stands on the index where it is listed, not hidden, and its gate would
/// let the visitor in: that of the app, on the path within the app.
pub proof fn the_index_keeps_the_gates(
    accounts: Accounts,
    meta: PageMeta,
    app_meta: PageMeta,
    app: &str,
    rest: Seq<char>,
    slug: &str,
    path: &str,
    gate: String,
    asked: &str,
    visitor: Option<&User>,
    opens: bool,
    r: bool,
)
    requires
        asked@ == gate@,
        slug@ == if rest.len() == 0 {
            app@
        } else {
            app@ + "/"@ + rest
        },
        !app@.contains('/'),
        path@ == "/"@ + rest,
        call_ensures(PageMeta::gate_for, (&app_meta, path), gate),
        call_ensures(admits, (&accounts, asked, app, visitor), opens),
        call_ensures(on_index, (&accounts, &meta, &app_meta, slug, visitor), r),
    ensures
        r == (meta.listed && !meta.hidden && opens),
{
    lemma_head(app@, rest);
    reveal_strlit("/");
    assert(path@ =~= "/"@ + rest_of(slug@));
}

/// The app that a slug begins with, and what follows it.
proof fn lemma_head(app: Seq<char>, rest: Seq<char>)
    requires
        !app.contains('/'),
    ensures
        head_of(app) == app,
        rest_of(app).len() == 0,
        head_of(app + "/"@ + rest) == app,
        rest_of(app + "/"@ + rest) == rest,
{
    reveal_strlit("/");
    let s = app + "/"@ + rest;
    assert(s[app.len() as int] == '/');
    assert forall|k: int| 0 <= k < app.len() implies s[k] != '/' by {
        assert(app.contains(app[k]));
    }
    lemma_first_slash(s, app.len() as int);
    assert(s.take(app.len() as int) =~= app);
    assert(s.skip((app.len() + 1) as int) =~= rest);
}

/// The first slash of a text is where it is found.
proof fn lemma_first_slash(s: Seq<char>, n: int)
    requires
        0 <= n < s.len(),
        s[n] == '/',
        forall|k: int| 0 <= k < n ==> s[k] != '/',
    ensures
        find(s, '/') == n,
{
    assert(s.contains('/'));
    lemma_find(s, '/');
    let k = find(s, '/');
    if k < n {
        assert(s[k] != '/');
    } else if n < k {
        assert(s.take(k)[n] == '/');
    }
}

/// Text that does not end in a slash loses nothing at its end; with a slash behind
/// it, it loses the slash.
proof fn lemma_end(s: Seq<char>)
    requires
        s.len() > 0,
        s.last() != '/',
    ensures
        stripped_end(s, "/"@) == s,
        stripped_end(s + "/"@, "/"@) == s,
{
    reveal_strlit("/");
    assert("/"@ =~= seq!['/']);
    assert(!"/"@.contains(s.last()));
    let t = s + "/"@;
    assert("/"@.contains('/')) by {
        assert("/"@[0] == '/');
    }
    assert(t.last() == '/');
    assert(t.drop_last() =~= s);
    assert(stripped_end(t, "/"@) == stripped_end(t.drop_last(), "/"@));
}

/// A path under `/p/` means the app it begins with and what follows: put together
/// again, they are the slug. With a slash behind it the path means the same page.
/// What is under `api` in the app is the handler's.
pub proof fn a_path_means_an_app_and_what_follows(
    slug: Seq<char>,
    path: &str,
    slash: bool,
    r: Option<PageRoute>,
)
    requires
        is_asset_path(slug),
        path@ == if slash {
            "/p/"@ + slug + "/"@
        } else {
            "/p/"@ + slug
        },
        call_ensures(route_page, (path,), r),
    ensures
        r matches Some(route) && route.slug@ == slug && route.had_slash == slash
            && !route.app@.contains('/') && (slug == if slug.contains('/') {
            route.app@ + "/"@ + route.rest@
        } else {
            route.app@
        }) && (!slug.contains('/') ==> route.rest@.len() == 0) && route.is_api == (route.rest@
            == "api"@ || "api/"@.is_prefix_of(route.rest@)),
{
    reveal_strlit("/p/");
    reveal_strlit("/");
    crate::content::laws::lemma_asset_end(slug);
    lemma_end(slug);
    let raw = path@.skip(3);
    if slash {
        assert(raw =~= slug + "/"@);
        assert(raw.subrange(raw.len() - 1, raw.len() as int) =~= "/"@);
    } else {
        assert(raw =~= slug);
        if "/"@.is_suffix_of(raw) {
            assert("/"@[0] == raw[raw.len() - 1]);
        }
    }
    assert("/p/"@.is_prefix_of(path@)) by {
        assert(path@.subrange(0, 3) =~= "/p/"@);
    }
    let route = r->0;
    if slug.contains('/') {
        lemma_find(slug, '/');
        let k = find(slug, '/');
        assert(route.app@ =~= slug.take(k));
        assert(slug =~= slug.take(k) + "/"@ + slug.skip(k + 1));
        assert(!slug.take(k).contains('/')) by {
            if slug.take(k).contains('/') {
                let j = slug.take(k).index_of('/');
                assert(slug[j] == '/');
            }
        }
    }
}

/// A path that is not under `/p/`, or whose rest is no path of an asset, means
/// nothing.
pub proof fn other_paths_mean_nothing(path: &str, r: Option<PageRoute>)
    requires
        call_ensures(route_page, (path,), r),
        r is Some,
    ensures
        "/p/"@.is_prefix_of(path@),
        is_asset_path(r->0.slug@),
        ("/p/"@ + r->0.slug@).is_prefix_of(path@),
{
    reveal_strlit("/p/");
    let raw = path@.skip(3);
    lemma_stripped_prefix(raw, "/"@);
    let whole = "/p/"@ + r->0.slug@;
    assert(whole =~= path@.subrange(0, whole.len() as int));
}

/// What is left of a text that lost its end is its front.
proof fn lemma_stripped_prefix(s: Seq<char>, set: Seq<char>)
    ensures
        stripped_end(s, set).is_prefix_of(s),
    decreases s.len(),
{
    if s.len() > 0 && set.contains(s.last()) {
        lemma_stripped_prefix(s.drop_last(), set);
        let t = stripped_end(s.drop_last(), set);
        assert(t =~= s.subrange(0, t.len() as int));
    } else {
        assert(s.subrange(0, s.len() as int) =~= s);
    }
}

/// The bare root of an app is sent on with a slash behind it, and no other path is
/// changed.
pub proof fn only_the_bare_root_gets_a_slash(app: &str, path: &str, r: String)
    requires
        call_ensures(app_scoped_next, (app, path), r),
    ensures
        path@ == "/p/"@ + app@ ==> r@ == path@ + "/"@,
        path@ != "/p/"@ + app@ ==> r@ == path@,
{
}

/// A handler sees its request as if it were alone on the host: the path within
/// its app, and the method, the query, the body and the headers as they came, but
/// for those that only the host may set.
pub proof fn a_handler_sees_its_own_path(
    app: &str,
    method: String,
    rest: Seq<char>,
    path: &str,
    query: String,
    headers: Vec<(String, String)>,
    body: Vec<u8>,
    r: Result<GuestRequest, Reply>,
)
    requires
        path@ == "/p/"@ + app@ + rest,
        body.len() <= 8_388_608,
        call_ensures(guest_request, (app, method, path, query, headers, body), r),
    ensures
        r matches Ok(g) && g.path@ == (if rest.len() == 0 {
            "/"@
        } else {
            rest
        }) && g.method == method && g.query == query && g.body == body && (forall|h: (
            String,
            String,
        )| #[trigger]
            g.headers@.contains(h) == (headers@.contains(h) && !"x-toolsite-"@.is_prefix_of(
                lowered(h.0@),
            ))),
{
    let mount = "/p/"@ + app@;
    assert(mount.is_prefix_of(path@)) by {
        assert(path@.subrange(0, mount.len() as int) =~= mount);
    }
    assert(path@.skip(mount.len() as int) =~= rest);
    let keeps = crate::content::serve::guest_header();
    let g = r->Ok_0;
    assert forall|h: (String, String)| #[trigger] g.headers@.contains(h) == (headers@.contains(h)
        && !"x-toolsite-"@.is_prefix_of(lowered(h.0@))) by {
        if g.headers@.contains(h) {
            let i = g.headers@.index_of(h);
            lemma_kept_from(headers@, keeps, i);
        }
        if headers@.contains(h) && keeps(h) {
            let i = headers@.index_of(h);
            headers@.lemma_filter_contains(keeps, i);
        }
        assert(keeps(h) == !is_reserved_header(h.0@));
    }
}

/// What a filter keeps was there, and fits.
proof fn lemma_kept_from<T>(s: Seq<T>, fits: spec_fn(T) -> bool, j: int)
    requires
        0 <= j < s.filter(fits).len(),
    ensures
        fits(s.filter(fits)[j]),
        s.contains(s.filter(fits)[j]),
    decreases s.len(),
{
    reveal(Seq::filter);
    s.lemma_filter_pred(fits, j);
    if s.len() > 0 {
        let front = s.drop_last().filter(fits);
        if j < front.len() {
            lemma_kept_from(s.drop_last(), fits, j);
            let i = s.drop_last().index_of(front[j]);
            assert(s[i] == s.filter(fits)[j]);
        } else {
            assert(s[s.len() - 1] == s.filter(fits)[j]);
        }
    }
}

/// A body that is too large never reaches a handler.
pub proof fn a_large_body_is_refused(
    app: &str,
    method: String,
    path: &str,
    query: String,
    headers: Vec<(String, String)>,
    body: Vec<u8>,
    r: Result<GuestRequest, Reply>,
)
    requires
        body.len() > 8_388_608,
        call_ensures(guest_request, (app, method, path, query, headers, body), r),
    ensures
        r matches Err(reply) && reply.status == 413,
{
}

/// What a handler answers is handed on as it is; only a status that is none becomes
/// a 500, and so does a handler that failed, without a word of why.
pub proof fn a_handlers_answer_is_handed_on(outcome: Result<GuestReply, ()>, r: Relayed)
    requires
        call_ensures(handler_reply, (outcome,), r),
    ensures
        match outcome {
            Ok(g) => r matches Relayed::Guest(shown) && shown.headers == g.headers && shown.body
                == g.body && (100 <= g.status <= 999 ==> shown.status == g.status) && (g.status < 100
                || g.status > 999 ==> shown.status == 500),
            Err(_) => r matches Relayed::Failed(reply) && reply.status == 500,
        },
{
}

/// The nearest client-routed app answers for a route: with one more app around the
/// others, a nearer one that answers stays the one that does.
pub proof fn the_nearest_router_answers(
    near: Vec<Enclosing>,
    all: Vec<Enclosing>,
    r: Option<String>,
    s: Option<String>,
)
    requires
        near@.is_prefix_of(all@),
        call_ensures(spa_fallback, (&near,), r),
        call_ensures(spa_fallback, (&all,), s),
    ensures
        r matches Some(app) ==> (s matches Some(b) && b@ == app@),
        s is None ==> r is None,
        near.len() == 0 ==> r is None,
        near.len() > 0 && near@[0].spa && near@[0].index ==> (r matches Some(app) && app@
            == near@[0].app@),
        near.len() == 1 && !(near@[0].spa && near@[0].index) ==> r is None,
{
    assert forall|i: int| 0 <= i < near@.len() implies #[trigger] all@[i] == near@[i] by {
        assert(near@[i] == all@.subrange(0, near@.len() as int)[i]);
    }
    if let Some(app) = r {
        let k = choose|k: int|
            #![trigger near@[k]]
            0 <= k < near.len() && routes(near@[k]) && app@ == near@[k].app@ && (forall|j: int|
                0 <= j < k ==> !routes(#[trigger] near@[j]));
        assert(all@[k] == near@[k]);
        let m = choose|m: int|
            #![trigger all@[m]]
            0 <= m < all.len() && routes(all@[m]) && s->0@ == all@[m].app@ && (forall|j: int|
                0 <= j < m ==> !routes(#[trigger] all@[j]));
        if m < k {
            assert(all@[m] == near@[m]);
        }
    }
}

/// The index says how many pages it shows.
pub proof fn the_index_counts_its_pages(
    accounts: Accounts,
    pages: Vec<Candidate>,
    visitor: Option<&User>,
    now: u64,
    n: nat,
    label: Seq<char>,
    r: Reply,
)
    requires
        call_ensures(index, (&accounts, pages, visitor, now), r),
        n == pages@.filter(showing(accounts, id_of(visitor))).len(),
        n == 0 ==> label == "No pages yet"@,
        n == 1 ==> label == "1 page"@,
        n > 1 ==> label == digits(n) + " pages"@,
    ensures
        exists|before: Seq<char>, after: Seq<char>|
            r.body@ == #[trigger] (before
                + ("</style></head><body><div class=\"container\"><h1>Pages</h1><p class=\"count\">"@
                + label + "</p>"@) + after),
{
    let shown = pages@.filter(showing(accounts, id_of(visitor)));
    let cards = choose|cards: Seq<PageCard>|
        is_index(cards, accounts, pages@, id_of(visitor)) && r@ == crate::reply::html(
            200,
            #[trigger] index_html(cards, now),
        );
    assert(cards.len() == n) by {
        assert(cards_of(shown).len() == shown.len());
        cards.to_multiset_ensures();
        cards_of(shown).to_multiset_ensures();
    }
    lemma_label(n, label);
    let before = crate::ui::HEAD@ + "Pages</title><style>"@ + crate::content::serve::INDEX_STYLE@;
    let middle = "</style></head><body><div class=\"container\"><h1>Pages</h1><p class=\"count\">"@
        + label + "</p>"@;
    let list = "<input type=\"search\" id=\"q\" placeholder=\"Filter pages…\" autocomplete=\"off\"><ul class=\"pages\" id=\"list\">"@;
    let end = "</ul><p class=\"no-match\" id=\"no-match\">No pages match that.</p></div>"@;
    let script = crate::content::serve::INDEX_SEARCH_SCRIPT@;
    if cards.len() > 0 {
        let after = list + cards_html(cards, now) + end + script + "</body></html>"@;
        lemma_regrouped(before + middle, list, cards_html(cards, now), end, script, "</body></html>"@);
        lemma_headed(
            crate::ui::HEAD@ + "Pages</title><style>"@ + crate::content::serve::INDEX_STYLE@,
            "</style></head><body><div class=\"container\"><h1>Pages</h1><p class=\"count\">"@,
            label,
            "</p>"@,
        );
        assert(r.body@ == before + middle + after);
    } else {
        let after = "<p class=\"empty\">No pages yet. Push one to see it here.</p></div></body></html>"@;
        lemma_headed(
            crate::ui::HEAD@ + "Pages</title><style>"@ + crate::content::serve::INDEX_STYLE@,
            "</style></head><body><div class=\"container\"><h1>Pages</h1><p class=\"count\">"@,
            label,
            "</p>"@,
        );
        assert(r.body@ == before + middle + after);
    }
}

/// Texts one after another, put together from the back.
proof fn lemma_regrouped(
    a: Seq<char>,
    b: Seq<char>,
    c: Seq<char>,
    d: Seq<char>,
    e: Seq<char>,
    f: Seq<char>,
)
    ensures
        a + b + c + d + e + f == a + (b + c + d + e + f),
{
    assert(a + b + c + d + e + f =~= a + (b + c + d + e + f));
}

/// A text and the three behind it.
proof fn lemma_headed(a: Seq<char>, b: Seq<char>, c: Seq<char>, d: Seq<char>)
    ensures
        a + b + c + d == a + (b + c + d),
{
    assert(a + b + c + d =~= a + (b + c + d));
}

/// A number of pages is escaped as it is.
proof fn lemma_label(n: nat, label: Seq<char>)
    requires
        n == 0 ==> label == "No pages yet"@,
        n == 1 ==> label == "1 page"@,
        n > 1 ==> label == digits(n) + " pages"@,
    ensures
        crate::content::slug::escaped(label) == label,
{
    reveal_strlit("No pages yet");
    reveal_strlit("1 page");
    reveal_strlit(" pages");
    crate::text_laws::lemma_digits(n);
    assert forall|i: int| 0 <= i < label.len() implies #[trigger] label[i] != '&' && label[i] != '<'
        && label[i] != '>' && label[i] != '"' by {
        if n > 1 && i < digits(n).len() {
            assert(label[i] == digits(n)[i]);
        }
    }
    crate::content::slug::escape_keeps_plain_text(label);
}

} // verus!
