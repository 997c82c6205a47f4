//! Serving a published page: what a path means, who may arrive, what answers,
//! and the index of what there is.
use crate::accounts::rows::keep;
use crate::accounts::users::{
    granted, has_grant, is_user, only_sessions_change, opt_str, Account, Accounts, Session, User,
};
use crate::accounts::web::{
    app_visitor, current_app_user, current_site_user, header_from, header_value,
    is_visitor_navigation, navigates, sign_in, site_visitor, to_sign_in,
};
use crate::config::Config;
use crate::content::slug::{
    escape_html, escaped, is_asset_path, is_slug, valid_asset_path, valid_slug,
};
use crate::content::store::{
    age, beside, file_beside, gate_of, inside, join_path, relative_time, Drawn, Icon, PageMeta,
};
use crate::encode::{percent, url_encode};
use crate::reply::{elsewhere, html, plain, typed, Answer, Reply};
use crate::text::{
    at, bytes_at, decimal, digits, find, joined, le, lemma_le_total, lemma_le_transitive,
    lemma_split_len, lossy, lossy_text, lower, lowercase, lowered, not_after, same, split, split_on,
    starts_with, strip_end, strip_prefix, stripped_end, texts, to_lowercase, trim_start,
    trimmed_start, utf8_text,
};
use vstd::prelude::*;
use vstd::utf8::valid_utf8;

verus! {

/// Ceiling on a request body handed to a guest.
pub const MAX_REQUEST_BYTES: usize = 8_388_608;

/// The ending of a path, in lower case: what follows its last dot, or all of it
/// where it has none.
pub open spec fn ending(path: Seq<char>) -> Seq<char> {
    lowered(split(path, '.').last())
}

/// The type that a file is served as, by its ending.
pub open spec fn type_of(ext: Seq<char>) -> Seq<char> {
    if ext == "html"@ || ext == "htm"@ {
        "text/html; charset=utf-8"@
    } else if ext == "css"@ {
        "text/css; charset=utf-8"@
    } else if ext == "js"@ || ext == "mjs"@ {
        "text/javascript; charset=utf-8"@
    } else if ext == "json"@ || ext == "map"@ {
        "application/json"@
    } else if ext == "svg"@ {
        "image/svg+xml"@
    } else if ext == "png"@ {
        "image/png"@
    } else if ext == "jpg"@ || ext == "jpeg"@ {
        "image/jpeg"@
    } else if ext == "gif"@ {
        "image/gif"@
    } else if ext == "webp"@ {
        "image/webp"@
    } else if ext == "avif"@ {
        "image/avif"@
    } else if ext == "ico"@ {
        "image/x-icon"@
    } else if ext == "woff2"@ {
        "font/woff2"@
    } else if ext == "woff"@ {
        "font/woff"@
    } else if ext == "ttf"@ {
        "font/ttf"@
    } else if ext == "otf"@ {
        "font/otf"@
    } else if ext == "wasm"@ {
        "application/wasm"@
    } else if ext == "txt"@ {
        "text/plain; charset=utf-8"@
    } else if ext == "xml"@ {
        "application/xml"@
    } else if ext == "webmanifest"@ {
        "application/manifest+json"@
    } else {
        "application/octet-stream"@
    }
}

/// The type that a file is served as.
pub fn content_type_for(path: &str) -> (r: &'static str)
    ensures
        r@ == type_of(ending(path@)),
{
    let parts = split_on(path, '.');
    let last: usize = parts.len() - 1;
    proof {
        assert(texts(parts@)[last as int] == parts@[last as int]@);
    }
    let lowered_ext = lower(parts[last].as_str());
    let ext = lowered_ext.as_str();
    if same(ext, "html") || same(ext, "htm") {
        "text/html; charset=utf-8"
    } else if same(ext, "css") {
        "text/css; charset=utf-8"
    } else if same(ext, "js") || same(ext, "mjs") {
        "text/javascript; charset=utf-8"
    } else if same(ext, "json") || same(ext, "map") {
        "application/json"
    } else if same(ext, "svg") {
        "image/svg+xml"
    } else if same(ext, "png") {
        "image/png"
    } else if same(ext, "jpg") || same(ext, "jpeg") {
        "image/jpeg"
    } else if same(ext, "gif") {
        "image/gif"
    } else if same(ext, "webp") {
        "image/webp"
    } else if same(ext, "avif") {
        "image/avif"
    } else if same(ext, "ico") {
        "image/x-icon"
    } else if same(ext, "woff2") {
        "font/woff2"
    } else if same(ext, "woff") {
        "font/woff"
    } else if same(ext, "ttf") {
        "font/ttf"
    } else if same(ext, "otf") {
        "font/otf"
    } else if same(ext, "wasm") {
        "application/wasm"
    } else if same(ext, "txt") {
        "text/plain; charset=utf-8"
    } else if same(ext, "xml") {
        "application/xml"
    } else if same(ext, "webmanifest") {
        "application/manifest+json"
    } else {
        "application/octet-stream"
    }
}

/// An icon in a page. Values arrive raw and are escaped here, on the way out.
pub open spec fn icon_html(icon: Drawn) -> Seq<char> {
    match icon {
        Drawn::Text(text) => "<span class=\"icon icon-text\">"@ + escaped(text) + "</span>"@,
        Drawn::Src(src) => "<span class=\"icon\"><img src=\""@ + escaped(src)
            + "\" alt=\"\"></span>"@,
        Drawn::Generated(initials, hue) => "<span class=\"icon icon-gen\" style=\"--h:"@ + digits(
            hue as nat,
        ) + "\">"@ + escaped(initials) + "</span>"@,
    }
}

/// An icon in a page.
pub fn icon_markup(icon: &Icon) -> (r: String)
    ensures
        r@ == icon_html(icon@),
{
    match icon {
        Icon::Text(text) => "<span class=\"icon icon-text\">".to_owned().concat(
            escape_html(text.as_str()).as_str(),
        ).concat("</span>"),
        Icon::Src(src) => "<span class=\"icon\"><img src=\"".to_owned().concat(
            escape_html(src.as_str()).as_str(),
        ).concat("\" alt=\"\"></span>"),
        Icon::Generated(initials, hue) => {
            "<span class=\"icon icon-gen\" style=\"--h:".to_owned().concat(
                decimal(*hue as u64).as_str(),
            ).concat("\">").concat(escape_html(initials.as_str()).as_str()).concat("</span>")
        },
    }
}

/// The first `n` bytes, or all where there are fewer.
pub open spec fn front(bytes: Seq<u8>, n: int) -> Seq<u8> {
    bytes.take(if bytes.len() < n {
        bytes.len() as int
    } else {
        n
    })
}

/// What kind of image some bytes are, by how they begin. A text that is none is
/// an emoji.
pub open spec fn image_type(bytes: Seq<u8>) -> Seq<char> {
    let text = trimmed_start(lossy(front(bytes, 256)));
    if "<svg"@.is_prefix_of(text) || "<?xml"@.is_prefix_of(text) {
        "image/svg+xml"@
    } else if at(bytes, seq![0x89u8, 0x50u8, 0x4eu8, 0x47u8], 0) {
        "image/png"@
    } else if at(bytes, seq![0xffu8, 0xd8u8, 0xffu8], 0) {
        "image/jpeg"@
    } else if at(bytes, seq![0x47u8, 0x49u8, 0x46u8, 0x38u8], 0) {
        "image/gif"@
    } else if at(bytes, seq![0x52u8, 0x49u8, 0x46u8, 0x46u8], 0) && bytes.len() > 12 && at(
        bytes,
        seq![0x57u8, 0x45u8, 0x42u8, 0x50u8],
        8,
    ) {
        "image/webp"@
    } else if at(bytes, seq![0u8, 0u8, 1u8, 0u8], 0) {
        "image/x-icon"@
    } else if valid_utf8(bytes) {
        "text/plain; charset=utf-8"@
    } else {
        "application/octet-stream"@
    }
}

/// What kind of image some bytes are.
pub fn sniff_image_type(bytes: &[u8]) -> (r: &'static str)
    ensures
        r@ == image_type(bytes@),
{
    let n: usize = if bytes.len() < 256 {
        bytes.len()
    } else {
        256
    };
    let (head, _) = bytes.split_at(n);
    proof {
        assert(head@ =~= front(bytes@, 256));
    }
    let text = lossy_text(head);
    let trimmed = trim_start(text.as_str());
    let png: [u8; 4] = [0x89u8, 0x50u8, 0x4eu8, 0x47u8];
    let jpeg: [u8; 3] = [0xffu8, 0xd8u8, 0xffu8];
    let gif: [u8; 4] = [0x47u8, 0x49u8, 0x46u8, 0x38u8];
    let riff: [u8; 4] = [0x52u8, 0x49u8, 0x46u8, 0x46u8];
    let webp: [u8; 4] = [0x57u8, 0x45u8, 0x42u8, 0x50u8];
    let ico: [u8; 4] = [0u8, 0u8, 1u8, 0u8];
    proof {
        assert(png@ =~= seq![0x89u8, 0x50u8, 0x4eu8, 0x47u8]);
        assert(jpeg@ =~= seq![0xffu8, 0xd8u8, 0xffu8]);
        assert(gif@ =~= seq![0x47u8, 0x49u8, 0x46u8, 0x38u8]);
        assert(riff@ =~= seq![0x52u8, 0x49u8, 0x46u8, 0x46u8]);
        assert(webp@ =~= seq![0x57u8, 0x45u8, 0x42u8, 0x50u8]);
        assert(ico@ =~= seq![0u8, 0u8, 1u8, 0u8]);
    }
    if starts_with(trimmed.as_str(), "<svg") || starts_with(trimmed.as_str(), "<?xml") {
        "image/svg+xml"
    } else if bytes_at(bytes, &png, 0) {
        "image/png"
    } else if bytes_at(bytes, &jpeg, 0) {
        "image/jpeg"
    } else if bytes_at(bytes, &gif, 0) {
        "image/gif"
    } else if bytes_at(bytes, &riff, 0) && bytes.len() > 12 && bytes_at(bytes, &webp, 8) {
        "image/webp"
    } else if bytes_at(bytes, &ico, 0) {
        "image/x-icon"
    } else if utf8_text(bytes).is_some() {
        // Emoji icons are stored as plain text.
        "text/plain; charset=utf-8"
    } else {
        "application/octet-stream"
    }
}

/// The slug that a path of an icon names, if it names one.
pub fn icon_slug(path: &str) -> (r: Option<String>)
    ensures
        match r {
            Some(s) => s@ == stripped_end(path@, "/"@) && is_slug(s@),
            None => !is_slug(stripped_end(path@, "/"@)),
        },
{
    let slug = strip_end(path, "/");
    if valid_slug(slug.as_str()) {
        Some(slug)
    } else {
        None
    }
}

/// The answer to a request for an icon: the headers that its bytes are sent
/// with, or that there is none.
pub fn serve_icon(bytes: Option<&[u8]>) -> (r: Reply)
    ensures
        r@ == match bytes {
            Some(b) => crate::reply::with_header(
                typed(200, image_type(b@), Seq::empty()),
                "cache-control"@,
                "public, max-age=300"@,
            ),
            None => plain(404, "not found"@),
        },
{
    match bytes {
        Some(b) => Reply::typed(200, sniff_image_type(b), String::new()).with(
            "cache-control",
            "public, max-age=300",
        ),
        None => Reply::says(404, "not found"),
    }
}

/// What a path under `/p/` means.
pub struct PageRoute {
    pub slug: String,
    /// The first segment: the app, or a page that stands alone.
    pub app: String,
    /// What follows it.
    pub rest: String,
    pub had_slash: bool,
    /// Whether the path is under the app's reserved `api` prefix.
    pub is_api: bool,
}

/// What a path means, over mathematical values.
pub struct Way {
    pub slug: Seq<char>,
    pub app: Seq<char>,
    pub rest: Seq<char>,
    pub had_slash: bool,
    pub is_api: bool,
}

impl View for PageRoute {
    type V = Way;

    open spec fn view(&self) -> Way {
        Way {
            slug: self.slug@,
            app: self.app@,
            rest: self.rest@,
            had_slash: self.had_slash,
            is_api: self.is_api,
        }
    }
}

/// What stands before the first slash, and what stands after it.
pub open spec fn head_of(slug: Seq<char>) -> Seq<char> {
    if slug.contains('/') {
        slug.take(find(slug, '/'))
    } else {
        slug
    }
}

/// What stands after the first slash.
pub open spec fn rest_of(slug: Seq<char>) -> Seq<char> {
    if slug.contains('/') {
        slug.skip(find(slug, '/') + 1)
    } else {
        Seq::empty()
    }
}

/// Whether the rest of a path is under the reserved prefix. A bundle that
/// happens to ship `api/config.json` must not be able to shadow its own
/// handler, so this wins before any file lookup.
pub open spec fn is_reserved(rest: Seq<char>) -> bool {
    rest == "api"@ || "api/"@.is_prefix_of(rest)
}

/// What a path means, if it can mean a page at all.
pub open spec fn way_of(path: Seq<char>) -> Option<Way> {
    let raw = path.skip(3);
    let slug = stripped_end(raw, "/"@);
    if "/p/"@.is_prefix_of(path) && is_asset_path(slug) {
        Some(
            Way {
                slug,
                app: head_of(slug),
                rest: rest_of(slug),
                had_slash: "/"@.is_suffix_of(raw),
                is_api: is_reserved(rest_of(slug)),
            },
        )
    } else {
        None
    }
}

/// What a path means: nothing where it is no path under `/p/`, or could lead
/// out of the site.
pub fn route_page(path: &str) -> (r: Option<PageRoute>)
    ensures
        match r {
            Some(route) => way_of(path@) == Some(route@),
            None => way_of(path@) is None,
        },
{
    proof {
        reveal_strlit("/p/");
    }
    let raw = match strip_prefix(path, "/p/") {
        Some(raw) => raw,
        None => {
            return None;
        },
    };
    let had_slash = crate::text::ends_with(raw.as_str(), "/");
    let slug = strip_end(raw.as_str(), "/");
    if !valid_asset_path(slug.as_str()) {
        return None;
    }
    let (app, rest) = match crate::text::split_once(slug.as_str(), '/') {
        Some((app, rest)) => (app, rest),
        None => (slug.clone(), String::new()),
    };
    let is_api = same(rest.as_str(), "api") || starts_with(rest.as_str(), "api/");
    Some(PageRoute { slug, app, rest, had_slash, is_api })
}

/// The page and the apps above it, from the outermost in: hiding any of them
/// hides the page.
pub fn prefixes(slug: &str) -> (r: Vec<String>)
    ensures
        r.len() == split(slug@, '/').len(),
        forall|i: int|
            0 <= i < r.len() ==> (#[trigger] r@[i])@ == joined(split(slug@, '/').take(i + 1), "/"@),
{
    let parts = split_on(slug, '/');
    let ghost all = texts(parts@);
    let mut r: Vec<String> = Vec::new();
    let mut prefix = String::new();
    let mut i: usize = 0;
    while i < parts.len()
        invariant
            i <= parts.len(),
            all == texts(parts@),
            r.len() == i,
            prefix@ == joined(all.take(i as int), "/"@),
            forall|k: int|
                0 <= k < i ==> (#[trigger] r@[k])@ == joined(all.take(k + 1), "/"@),
        decreases parts.len() - i,
    {
        proof {
            assert(all.take(i + 1).drop_last() =~= all.take(i as int));
            assert(all.take(i + 1).last() == parts@[i as int]@);
        }
        if i > 0 {
            prefix = prefix.concat("/").concat(parts[i].as_str());
        } else {
            prefix = parts[0].clone();
            assert(all.take(1)[0] == parts@[0]@);
        }
        r.push(prefix.clone());
        i += 1;
    }
    proof {
        assert(all.len() == parts@.len());
    }
    r
}

/// Whether the page or any app above it has been hidden.
pub open spec fn any_hidden(hidden: Seq<bool>) -> bool {
    exists|i: int| 0 <= i < hidden.len() && #[trigger] hidden[i]
}

/// Whether the page or any app above it has been hidden.
pub fn is_hidden(hidden: &Vec<bool>) -> (r: bool)
    ensures
        r == any_hidden(hidden@),
{
    let mut i: usize = 0;
    while i < hidden.len()
        invariant
            i <= hidden.len(),
            forall|k: int| 0 <= k < i ==> !#[trigger] hidden@[k],
        decreases hidden.len() - i,
    {
        if hidden[i] {
            assert(hidden@[i as int]);
            return true;
        }
        i += 1;
    }
    false
}

/// Whether a gate admits a visitor, given by their id. An unknown gate is
/// closed rather than open.
pub open spec fn gate_admits(
    accounts: Accounts,
    gate: Seq<char>,
    app: Seq<char>,
    visitor: Option<Seq<char>>,
) -> bool {
    if gate == "public"@ {
        true
    } else if gate == "authenticated"@ {
        visitor is Some
    } else if gate == "granted"@ {
        visitor matches Some(id) && granted(accounts, id, app)
    } else {
        false
    }
}

/// The id of an optional user.
pub open spec fn id_of(user: Option<&User>) -> Option<Seq<char>> {
    match user {
        Some(u) => Some(u.id@),
        None => None,
    }
}

/// Whether this gate admits this visitor. `None` is an anonymous request.
pub fn admits(accounts: &Accounts, gate: &str, app: &str, visitor: Option<&User>) -> (r: bool)
    ensures
        r == gate_admits(*accounts, gate@, app@, id_of(visitor)),
{
    proof {
        reveal_strlit("public");
        reveal_strlit("authenticated");
        reveal_strlit("granted");
    }
    if same(gate, "public") {
        true
    } else if same(gate, "authenticated") {
        visitor.is_some()
    } else if same(gate, "granted") {
        match visitor {
            Some(user) => has_grant(accounts, user, app),
            None => false,
        }
    } else {
        false
    }
}

/// Where to send a visitor so that the app's cookie will actually be sent back.
pub open spec fn scoped_next(app: Seq<char>, path: Seq<char>) -> Seq<char> {
    if path == "/p/"@ + app {
        "/p/"@ + app + "/"@
    } else {
        path
    }
}

/// Where to send a visitor so that the app's cookie will actually be sent
/// back. A cookie scoped `/p/<app>/` is not attached to a request for
/// `/p/<app>` — the path must match up to and including that slash — so the
/// bare app root would otherwise bounce between gate and handoff forever.
/// Both forms serve the same content.
pub fn app_scoped_next(app: &str, path: &str) -> (r: String)
    ensures
        r@ == scoped_next(app@, path@),
{
    let root = "/p/".to_owned().concat(app);
    if same(path, root.as_str()) {
        root.concat("/")
    } else {
        path.to_owned()
    }
}

/// The answer of a gate: none where the visitor may pass.
///
/// Only an app session opens a gate. A visitor holding a site session but not
/// yet a session for this app is sent through the handoff to earn one, if it
/// would in fact satisfy what the app asks for; a visitor holding neither is
/// sent to sign in. An API call gets a status instead of either redirect.
pub open spec fn gate_answer(
    accounts: Accounts,
    gate: Seq<char>,
    app: Seq<char>,
    visitor: Option<Seq<char>>,
    site: Option<Seq<char>>,
    path: Seq<char>,
    is_api: bool,
    may_hand_off: bool,
) -> Option<Answer> {
    let next = scoped_next(app, path);
    let known = visitor is Some || site is Some;
    if gate_admits(accounts, gate, app, visitor) {
        None
    } else if !is_api && may_hand_off && gate_admits(accounts, gate, app, site) {
        Some(elsewhere(303, "/auth/handoff?app="@ + app + "&next="@ + percent(next)))
    } else if is_api {
        Some(
            plain(
                if known {
                    403
                } else {
                    401
                },
                "not permitted"@,
            ),
        )
    } else if known {
        Some(plain(403, "you do not have access to this app"@))
    } else {
        Some(sign_in(next))
    }
}

/// Whether an optional reply is an optional answer.
pub open spec fn replies(reply: Option<Reply>, answer: Option<Answer>) -> bool {
    match (reply, answer) {
        (Some(r), Some(a)) => r@ == a,
        (None, None) => true,
        _ => false,
    }
}

/// Refuses a request the app's gate does not admit.
pub fn gate_check(
    accounts: &Accounts,
    gate: &str,
    app: &str,
    visitor: Option<&User>,
    site_user: Option<&User>,
    path: &str,
    is_api: bool,
    may_hand_off: bool,
) -> (r: Option<Reply>)
    ensures
        replies(
            r,
            gate_answer(
                *accounts,
                gate@,
                app@,
                id_of(visitor),
                id_of(site_user),
                path@,
                is_api,
                may_hand_off,
            ),
        ),
{
    if admits(accounts, gate, app, visitor) {
        return None;
    }
    let next = app_scoped_next(app, path);
    // Worth a trip through the handoff only if the site session would in fact
    // satisfy this gate — otherwise the answer is already no, and minting a
    // session for the app would tell it about a visitor it just refused.
    if !is_api && may_hand_off && admits(accounts, gate, app, site_user) {
        let url = "/auth/handoff?app=".to_owned().concat(app).concat("&next=").concat(
            url_encode(next.as_str()).as_str(),
        );
        return Some(Reply::elsewhere(303, url.as_str()));
    }
    // Signing in again cannot help someone we have already identified, by
    // either tier, so say no rather than sending them round the loop.
    let known = visitor.is_some() || site_user.is_some();
    if is_api {
        let status: u16 = if known {
            403
        } else {
            401
        };
        Some(Reply::says(status, "not permitted"))
    } else if known {
        Some(Reply::says(403, "you do not have access to this app"))
    } else {
        Some(to_sign_in(next.as_str()))
    }
}

/// The id of a visitor that a live session names.
pub open spec fn visitor_id(found: Option<(Session, Account)>) -> Option<Seq<char>> {
    match found {
        Some((_, a)) => Some(a.id@),
        None => None,
    }
}

/// What stops a request on its way to a page, if anything does. Only the cookie
/// scoped to this app speaks for the visitor.
pub open spec fn stopped(
    accounts: Accounts,
    meta: PageMeta,
    way: Way,
    path: Seq<char>,
    headers: Seq<(String, String)>,
    now: u64,
) -> Option<Answer> {
    let cookies = header_from(headers, "cookie"@, 0);
    gate_answer(
        accounts,
        gate_of(meta, "/"@ + way.rest),
        way.app,
        visitor_id(app_visitor(accounts, way.app, cookies, now)),
        visitor_id(site_visitor(accounts, cookies, now)),
        path,
        way.is_api,
        navigates(headers),
    )
}

/// Lets a request for a page arrive: who the visitor is, and what they are
/// answered where the app is not open to them.
///
/// Only the cookie scoped to *this* app speaks for the visitor here. The site
/// cookie is sent to every path on the origin, so honouring it would let any
/// published app act as the visitor against every other one.
pub fn arrive(
    accounts: &mut Accounts,
    meta: &PageMeta,
    route: &PageRoute,
    path: &str,
    headers: &Vec<(String, String)>,
    now: u64,
) -> (r: (Option<User>, Option<Reply>))
    ensures
        is_user(
            r.0,
            app_visitor(*old(accounts), route.app@, header_from(headers@, "cookie"@, 0), now),
        ),
        replies(r.1, stopped(*old(accounts), *meta, route@, path@, headers@, now)),
        only_sessions_change(*old(accounts), *final(accounts)),
        old(accounts).wf() ==> final(accounts).wf(),
{
    let gate = meta.gate_for("/".to_owned().concat(route.rest.as_str()).as_str());
    let cookies = header_value(headers, "cookie");
    let ghost start = *accounts;
    let visitor = current_app_user(accounts, route.app.as_str(), cookies, now);
    let ghost swept = *accounts;
    let site_user = current_site_user(accounts, cookies, now);
    proof {
        lemma_sweep(start, swept, opt_str(cookies), now);
    }
    let may_hand_off = is_visitor_navigation(headers);
    let denied = gate_check(
        accounts,
        gate.as_str(),
        route.app.as_str(),
        visitor.as_ref(),
        site_user.as_ref(),
        path,
        route.is_api,
        may_hand_off,
    );
    (visitor, denied)
}

/// Sweeping expired sessions changes nothing about who is signed in.
proof fn lemma_sweep(before: Accounts, after: Accounts, cookies: Option<Seq<char>>, now: u64)
    requires
        only_sessions_change(before, after),
        after.sessions@ == before.sessions@ || after.sessions@ == before.sessions@.filter(
            |s: Session| s.expires_at >= now,
        ),
    ensures
        site_visitor(after, cookies, now) == site_visitor(before, cookies, now),
{
    let name = crate::accounts::web::SESSION_COOKIE@;
    if let Some(token) = crate::accounts::web::cookie_in(cookies, name) {
        let fits = |s: Session| crate::accounts::users::is_live(s, token, None, now);
        let stays = |s: Session| s.expires_at >= now;
        if after.sessions@ != before.sessions@ {
            crate::accounts::rows::lemma_first_kept(before.sessions@, fits, stays);
        }
    }
}

/// What is there to answer a request with: whether there is a file at each of
/// the request's places, and for a page one that is text.
pub struct Found {
    /// The slug is a file of a bundle.
    pub asset: bool,
    /// The slug is a page.
    pub direct: bool,
    /// The slug is an app with an index page.
    pub index: bool,
    /// The app has a handler.
    pub handler: bool,
    /// The nearest enclosing app that answers for client routes.
    pub spa: Option<String>,
}

/// What answers a request.
pub enum Serve {
    /// The app's handler.
    Handler { path: String },
    /// A file of a bundle, served as a type.
    Asset { path: String, content_type: &'static str },
    /// A page.
    Page { path: String },
    /// Nothing but an answer.
    Answer(Reply),
}

/// What answers a request, over mathematical values.
pub enum Served {
    Handler { path: Seq<char> },
    Asset { path: Seq<char>, content_type: Seq<char> },
    Page { path: Seq<char> },
    Answer(Answer),
}

impl View for Serve {
    type V = Served;

    open spec fn view(&self) -> Served {
        match self {
            Serve::Handler { path } => Served::Handler { path: path@ },
            Serve::Asset { path, content_type } => Served::Asset {
                path: path@,
                content_type: content_type@,
            },
            Serve::Page { path } => Served::Page { path: path@ },
            Serve::Answer(r) => Served::Answer(r@),
        }
    }
}

/// Where an app's handler is.
pub open spec fn handler_file(config: Config, app: Seq<char>) -> Seq<char> {
    beside(config, app, "/handler.wasm"@)
}

/// Where an app's handler is, if it can have one.
pub fn handler_wasm(config: &Config, app: &str) -> (r: Option<String>)
    ensures
        match r {
            Some(p) => is_slug(app@) && p@ == handler_file(*config, app@),
            None => !is_slug(app@),
        },
{
    if valid_slug(app) {
        Some(file_beside(config, app, "/handler.wasm"))
    } else {
        None
    }
}

/// Where to look for what answers a request.
pub struct Places {
    pub asset: String,
    pub direct: String,
    pub index: String,
    /// None where the app can have no handler.
    pub handler: Option<String>,
}

/// Where to look for what answers a request.
pub fn places(config: &Config, route: &PageRoute) -> (r: Places)
    ensures
        r.asset@ == inside(config.data_dir@, route.slug@),
        r.direct@ == beside(*config, route.slug@, ".html"@),
        r.index@ == beside(*config, route.slug@, "/index.html"@),
        match r.handler {
            Some(p) => is_slug(route.app@) && p@ == handler_file(*config, route.app@),
            None => !is_slug(route.app@),
        },
{
    Places {
        asset: join_path(config.data_dir.as_str(), route.slug.as_str()),
        direct: file_beside(config, route.slug.as_str(), ".html"),
        index: file_beside(config, route.slug.as_str(), "/index.html"),
        handler: handler_wasm(config, route.app.as_str()),
    }
}

/// What answers a request, in a fixed order: the handler for anything under the
/// reserved prefix; else an exact file; a page; an app's index page, reached by
/// its trailing-slash form so that relative links inside the app resolve; the
/// handler, so that it can render its own routes; the index of a client-routed
/// app; else nothing.
pub open spec fn resolved(config: Config, way: Way, found: Found) -> Served {
    let handler = found.handler && is_slug(way.app);
    if way.is_api {
        if handler {
            Served::Handler { path: handler_file(config, way.app) }
        } else {
            Served::Answer(plain(404, "this app has no handler"@))
        }
    } else if found.asset {
        Served::Asset {
            path: inside(config.data_dir@, way.slug),
            content_type: type_of(ending(way.slug)),
        }
    } else if found.direct {
        Served::Page { path: beside(config, way.slug, ".html"@) }
    } else if found.index {
        if way.had_slash {
            Served::Page { path: beside(config, way.slug, "/index.html"@) }
        } else {
            Served::Answer(elsewhere(308, "/p/"@ + way.slug + "/"@))
        }
    } else if handler {
        Served::Handler { path: handler_file(config, way.app) }
    } else {
        match found.spa {
            Some(app) => Served::Page { path: beside(config, app@, "/index.html"@) },
            None => Served::Answer(plain(404, "not found"@)),
        }
    }
}

/// What answers a request that was let through.
pub fn resolve(config: &Config, route: &PageRoute, found: &Found) -> (r: Serve)
    ensures
        r@ == resolved(*config, route@, *found),
{
    let handler: Option<String> = if found.handler {
        handler_wasm(config, route.app.as_str())
    } else {
        None
    };
    if route.is_api {
        return match handler {
            Some(path) => Serve::Handler { path },
            None => Serve::Answer(Reply::says(404, "this app has no handler")),
        };
    }
    // A file inside a bundle: styles, scripts, images, fonts.
    if found.asset {
        return Serve::Asset {
            path: join_path(config.data_dir.as_str(), route.slug.as_str()),
            content_type: content_type_for(route.slug.as_str()),
        };
    }
    if found.direct {
        return Serve::Page { path: file_beside(config, route.slug.as_str(), ".html") };
    }
    if found.index {
        if !route.had_slash {
            let url = "/p/".to_owned().concat(route.slug.as_str()).concat("/");
            return Serve::Answer(Reply::elsewhere(308, url.as_str()));
        }
        return Serve::Page { path: file_beside(config, route.slug.as_str(), "/index.html") };
    }
    // Nothing on disk, but the app ships code: let it answer for its own
    // routes, which is what server-rendered pages need.
    if let Some(path) = handler {
        return Serve::Handler { path };
    }
    // Client-routed bundle: the route is the app's own concern, so hand back
    // its index and let the router sort it out.
    match &found.spa {
        Some(app) => Serve::Page { path: file_beside(config, app.as_str(), "/index.html") },
        None => Serve::Answer(Reply::says(404, "not found")),
    }
}

/// What a request for a page is answered: nothing is there where the page or an
/// app above it is hidden, what the app asks for comes next, and only then what
/// there is.
pub open spec fn page_answer(
    config: Config,
    accounts: Accounts,
    meta: PageMeta,
    hidden: Seq<bool>,
    way: Way,
    path: Seq<char>,
    headers: Seq<(String, String)>,
    found: Found,
    now: u64,
) -> Served {
    if any_hidden(hidden) {
        Served::Answer(plain(404, "not found"@))
    } else {
        match stopped(accounts, meta, way, path, headers, now) {
            Some(answer) => Served::Answer(answer),
            None => resolved(config, way, found),
        }
    }
}

/// Answers a request for a page: who the visitor is, and what answers them.
/// `meta` is that of the app, `hidden` says of the page and of each app above
/// it whether it is hidden, `found` what there is.
pub fn serve_page(
    config: &Config,
    accounts: &mut Accounts,
    meta: &PageMeta,
    hidden: &Vec<bool>,
    route: &PageRoute,
    path: &str,
    headers: &Vec<(String, String)>,
    found: &Found,
    now: u64,
) -> (r: (Option<User>, Serve))
    ensures
        r.1@ == page_answer(
            *config,
            *old(accounts),
            *meta,
            hidden@,
            route@,
            path@,
            headers@,
            *found,
            now,
        ),
        any_hidden(hidden@) ==> r.0 is None && *final(accounts) == *old(accounts),
        !any_hidden(hidden@) ==> is_user(
            r.0,
            app_visitor(*old(accounts), route.app@, header_from(headers@, "cookie"@, 0), now),
        ),
        only_sessions_change(*old(accounts), *final(accounts)),
        old(accounts).wf() ==> final(accounts).wf(),
{
    // Checked ahead of any gate: a hidden app tells nobody that it is there.
    if is_hidden(hidden) {
        return (None, Serve::Answer(Reply::says(404, "not found")));
    }
    let (visitor, denied) = arrive(accounts, meta, route, path, headers, now);
    match denied {
        Some(reply) => (visitor, Serve::Answer(reply)),
        None => (visitor, resolve(config, route, found)),
    }
}

/// A hidden page is answered as one that was never there, whoever asks and
/// whatever is on disk.
pub proof fn hidden_is_as_if_never_there(
    config: Config,
    accounts: Accounts,
    meta: PageMeta,
    hidden: Seq<bool>,
    way: Way,
    path: Seq<char>,
    headers: Seq<(String, String)>,
    found: Found,
    now: u64,
    nothing: Found,
)
    requires
        any_hidden(hidden),
        !way.is_api,
        !nothing.asset && !nothing.direct && !nothing.index && !nothing.handler,
        nothing.spa is None,
    ensures
        page_answer(config, accounts, meta, hidden, way, path, headers, found, now) == resolved(
            config,
            way,
            nothing,
        ),
{
}

/// A gate covers everything under an app: where it stops a request, the answer
/// is the same whatever is there, so neither a page nor an asset nor the
/// handler is reached.
pub proof fn gate_covers_everything(
    config: Config,
    accounts: Accounts,
    meta: PageMeta,
    hidden: Seq<bool>,
    way: Way,
    path: Seq<char>,
    headers: Seq<(String, String)>,
    found: Found,
    other: Found,
    now: u64,
)
    requires
        stopped(accounts, meta, way, path, headers, now) is Some,
    ensures
        page_answer(config, accounts, meta, hidden, way, path, headers, found, now) is Answer,
        page_answer(config, accounts, meta, hidden, way, path, headers, found, now) == page_answer(
            config,
            accounts,
            meta,
            hidden,
            way,
            path,
            headers,
            other,
            now,
        ),
{
}

/// No file can shadow an app's handler: whatever is on disk, a path under the
/// reserved prefix is the handler's, or nobody's.
pub proof fn api_is_never_shadowed(config: Config, way: Way, found: Found)
    requires
        way.is_api,
    ensures
        resolved(config, way, found) is Handler || resolved(config, way, found) == Served::Answer(
            plain(404, "this app has no handler"@),
        ),
{
}

/// A static file wins over the handler everywhere else.
pub proof fn files_win_over_the_handler(config: Config, way: Way, found: Found)
    requires
        !way.is_api,
        found.asset || found.direct || found.index,
    ensures
        !(resolved(config, way, found) is Handler),
{
}

/// Nothing is served from a place that was not looked at and found: a file, a
/// page or a handler that answers is one at a place of the request, or the index
/// page of the client-routed app around it.
pub proof fn only_what_was_found_is_served(
    config: Config,
    route: PageRoute,
    found: Found,
    places: Places,
)
    requires
        places.asset@ == inside(config.data_dir@, route.slug@),
        places.direct@ == beside(config, route.slug@, ".html"@),
        places.index@ == beside(config, route.slug@, "/index.html"@),
        places.handler matches Some(p) ==> p@ == handler_file(config, route.app@),
        places.handler is Some == is_slug(route.app@),
    ensures
        match resolved(config, route@, found) {
            Served::Handler { path } => {
                &&& found.handler
                &&& places.handler matches Some(p)
                &&& path == p@
            },
            Served::Asset { path, .. } => found.asset && path == places.asset@,
            Served::Page { path } => {
                ||| found.direct && path == places.direct@
                ||| found.index && path == places.index@
                ||| (found.spa matches Some(app) && path == beside(config, app@, "/index.html"@))
            },
            Served::Answer(_) => true,
        },
{
}

/// A site session alone opens no app: without a session of the app itself, a
/// gate that is not public lets nobody through.
pub proof fn site_session_opens_no_app(
    accounts: Accounts,
    gate: Seq<char>,
    app: Seq<char>,
    site: Option<Seq<char>>,
    path: Seq<char>,
    is_api: bool,
    may_hand_off: bool,
)
    requires
        gate != "public"@,
    ensures
        gate_answer(accounts, gate, app, None, site, path, is_api, may_hand_off) is Some,
{
}

/// A public app needs no account: its gate lets everybody through.
pub proof fn public_app_needs_no_account(
    accounts: Accounts,
    app: Seq<char>,
    visitor: Option<Seq<char>>,
    site: Option<Seq<char>>,
    path: Seq<char>,
    is_api: bool,
    may_hand_off: bool,
)
    ensures
        gate_answer(accounts, "public"@, app, visitor, site, path, is_api, may_hand_off) is None,
{
}

/// A background request is never handed off, whoever makes it, and neither is
/// an API call.
pub proof fn only_navigation_is_handed_off(
    accounts: Accounts,
    gate: Seq<char>,
    app: Seq<char>,
    visitor: Option<Seq<char>>,
    site: Option<Seq<char>>,
    path: Seq<char>,
    is_api: bool,
    may_hand_off: bool,
)
    requires
        is_api || !may_hand_off,
        gate_answer(accounts, gate, app, visitor, site, path, is_api, may_hand_off) matches Some(a)
            && a.status != 401 && a.status != 403,
    ensures
        gate_answer(accounts, gate, app, visitor, site, path, is_api, may_hand_off) == Some(
            sign_in(scoped_next(app, path)),
        ),
        visitor is None,
        site is None,
        !is_api,
{
}

/// The bare root of an app is handed off to the form that its cookie is sent
/// to.
pub proof fn bare_root_does_not_loop(app: Seq<char>)
    ensures
        crate::accounts::users::app_path(app).is_prefix_of(scoped_next(app, "/p/"@ + app)),
{
    let root = crate::accounts::users::app_path(app);
    assert(root.subrange(0, root.len() as int) =~= root);
}

/// A header that the host alone may set.
pub open spec fn is_reserved_header(name: Seq<char>) -> bool {
    "x-toolsite-"@.is_prefix_of(lowered(name))
}

/// What a handler is handed.
pub struct GuestRequest {
    pub method: String,
    pub path: String,
    pub query: String,
    pub headers: Vec<(String, String)>,
    pub body: Vec<u8>,
}

/// The path that a guest sees: relative to its own app, so a handler never has
/// to know where it is mounted.
pub open spec fn guest_path(app: Seq<char>, path: Seq<char>) -> Seq<char> {
    let mount = "/p/"@ + app;
    let rel = if mount.is_prefix_of(path) {
        path.skip(mount.len() as int)
    } else {
        path
    };
    if rel.len() == 0 {
        "/"@
    } else {
        rel
    }
}

/// Which headers a guest sees: those that only the host may set are stripped
/// from what a client sent, so they mean what they say.
pub open spec fn guest_header() -> spec_fn((String, String)) -> bool {
    |h: (String, String)| !is_reserved_header(h.0@)
}

/// What a handler is handed for a request, unless its body is too large.
pub fn guest_request(
    app: &str,
    method: String,
    path: &str,
    query: String,
    headers: Vec<(String, String)>,
    body: Vec<u8>,
) -> (r: Result<GuestRequest, Reply>)
    ensures
        match r {
            Ok(g) => {
                &&& body.len() <= MAX_REQUEST_BYTES
                &&& g.method == method
                &&& g.path@ == guest_path(app@, path@)
                &&& g.query == query
                &&& g.headers@ == headers@.filter(guest_header())
                &&& g.body == body
            },
            Err(reply) => body.len() > MAX_REQUEST_BYTES && reply@ == plain(
                413,
                "request too large"@,
            ),
        },
{
    if body.len() > MAX_REQUEST_BYTES {
        return Err(Reply::says(413, "request too large"));
    }
    let mount = "/p/".to_owned().concat(app);
    let rel = match strip_prefix(path, mount.as_str()) {
        Some(rel) => rel,
        None => path.to_owned(),
    };
    let shown: String = if rel.as_str().is_empty() {
        "/".to_owned()
    } else {
        rel
    };
    let mut kept = headers;
    let stays = |h: &(String, String)| -> (b: bool)
        ensures
            b == !is_reserved_header(h.0@)
    {
        !starts_with(lower(h.0.as_str()).as_str(), "x-toolsite-")
    };
    crate::accounts::rows::keep(&mut kept, stays, Ghost(guest_header()));
    Ok(GuestRequest { method, path: shown, query, headers: kept, body })
}

/// A client cannot forge a header that the host sets.
pub proof fn host_headers_cannot_be_forged(headers: Seq<(String, String)>)
    ensures
        forall|i: int|
            0 <= i < headers.filter(guest_header()).len() ==> !is_reserved_header(
                (#[trigger] headers.filter(guest_header())[i]).0@,
            ),
{
    crate::accounts::rows::lemma_kept(headers, guest_header());
    assert forall|i: int| 0 <= i < headers.filter(guest_header()).len() implies !is_reserved_header(
        (#[trigger] headers.filter(guest_header())[i]).0@,
    ) by {
        assert((guest_header())(headers.filter(guest_header())[i]));
    }
}

/// What a handler answered.
pub struct GuestReply {
    pub status: u16,
    pub headers: Vec<(String, String)>,
    pub body: Vec<u8>,
}

/// What a visitor is answered once a handler ran.
pub enum Relayed {
    /// What the handler said.
    Guest(GuestReply),
    /// That it failed, without a word on how.
    Failed(Reply),
}

/// What a visitor is answered once a handler ran: a status that is none becomes
/// an error, and a trap is the app's bug, reported without leaking the host's
/// internals.
pub fn handler_reply(outcome: Result<GuestReply, ()>) -> (r: Relayed)
    ensures
        match (outcome, r) {
            (Ok(g), Relayed::Guest(shown)) => shown.headers == g.headers && shown.body == g.body
                && shown.status == if 100 <= g.status <= 999 {
                g.status
            } else {
                500
            },
            (Err(_), Relayed::Failed(reply)) => reply@ == plain(500, "handler error"@),
            _ => false,
        },
{
    match outcome {
        Ok(g) => {
            let status: u16 = if 100 <= g.status && g.status <= 999 {
                g.status
            } else {
                500
            };
            Relayed::Guest(GuestReply { status, headers: g.headers, body: g.body })
        },
        Err(_) => Relayed::Failed(Reply::says(500, "handler error")),
    }
}

/// The apps that enclose a page, from the nearest out: the nearest that is
/// client-routed wins, so nested bundles behave sensibly.
pub fn enclosing(slug: &str) -> (r: Vec<String>)
    ensures
        r.len() == split(slug@, '/').len() - 1,
        forall|i: int|
            0 <= i < r.len() ==> (#[trigger] r@[i])@ == joined(
                split(slug@, '/').take(r.len() - i),
                "/"@,
            ),
{
    let all = prefixes(slug);
    proof {
        lemma_split_len(slug@, '/');
    }
    let mut r: Vec<String> = Vec::new();
    let n: usize = all.len() - 1;
    let mut i: usize = n;
    while i > 0
        invariant
            i <= n,
            n == all.len() - 1,
            r.len() == n - i,
            forall|k: int|
                0 <= k < all.len() ==> (#[trigger] all@[k])@ == joined(
                    split(slug@, '/').take(k + 1),
                    "/"@,
                ),
            forall|k: int|
                0 <= k < r.len() ==> (#[trigger] r@[k])@ == joined(
                    split(slug@, '/').take(n - k),
                    "/"@,
                ),
        decreases i,
    {
        i -= 1;
        r.push(all[i].clone());
    }
    r
}

/// An app that encloses a page.
pub struct Enclosing {
    pub app: String,
    /// Whether it is client-routed.
    pub spa: bool,
    /// Whether it has an index page.
    pub index: bool,
}

/// Whether an app answers for client routes: it is client-routed and has an index
/// page.
pub open spec fn routes(app: Enclosing) -> bool {
    app.spa && app.index
}

/// Whether an app is the one that answers for a client route: the first that does,
/// or none where none does.
pub open spec fn is_router(apps: Seq<Enclosing>, r: Option<String>) -> bool {
    match r {
        Some(app) => exists|k: int|
            #![trigger apps[k]]
            0 <= k < apps.len() && routes(apps[k]) && app@ == apps[k].app@ && (forall|j: int|
                0 <= j < k ==> !routes(#[trigger] apps[j])),
        None => forall|k: int| 0 <= k < apps.len() ==> !routes(#[trigger] apps[k]),
    }
}

/// The app that answers for a client route: the first that is client-routed and
/// has an index page.
pub fn spa_fallback(apps: &Vec<Enclosing>) -> (r: Option<String>)
    ensures
        is_router(apps@, r),
{
    let mut i: usize = 0;
    while i < apps.len()
        invariant
            i <= apps.len(),
            forall|j: int| 0 <= j < i ==> !routes(#[trigger] apps@[j]),
        decreases apps.len() - i,
    {
        if apps[i].spa && apps[i].index {
            assert(routes(apps@[i as int]));
            return Some(apps[i].app.clone());
        }
        i += 1;
    }
    None
}

/// How the index looks.
pub const INDEX_STYLE: &'static str = r#"
:root {
  color-scheme: light dark;
  --bg: #f7f7f8;
  --fg: #1a1a1a;
  --muted: #6b7280;
  --card-bg: #ffffff;
  --border: #e5e7eb;
  --accent: #4f46e5;
}
@media (prefers-color-scheme: dark) {
  :root {
    --bg: #111114;
    --fg: #e8e8ea;
    --muted: #9198a1;
    --card-bg: #1a1a1f;
    --border: #2a2a30;
    --accent: #818cf8;
  }
}
* { box-sizing: border-box; }
body {
  margin: 0;
  padding: 3rem 1.5rem;
  background: var(--bg);
  color: var(--fg);
  font-family: -apple-system, BlinkMacSystemFont, "Segoe UI", Roboto, sans-serif;
}
.container { max-width: 640px; margin: 0 auto; }
h1 { font-size: 1.5rem; margin: 0 0 .25rem; }
.count { color: var(--muted); font-size: .9rem; margin: 0 0 1.5rem; }
input[type="search"] {
  width: 100%;
  padding: .6rem .8rem;
  border-radius: .5rem;
  border: 1px solid var(--border);
  background: var(--card-bg);
  color: var(--fg);
  font-size: .95rem;
  margin-bottom: 1.25rem;
}
input[type="search"]:focus { outline: 2px solid var(--accent); outline-offset: 1px; }
ul.pages { list-style: none; margin: 0; padding: 0; display: flex; flex-direction: column; gap: .5rem; }
ul.pages li a {
  display: flex;
  align-items: center;
  gap: .75rem;
  padding: .7rem .9rem;
  border-radius: .5rem;
  border: 1px solid var(--border);
  background: var(--card-bg);
  color: var(--fg);
  text-decoration: none;
  font-size: .95rem;
  transition: border-color .15s ease;
}
ul.pages li a:hover { border-color: var(--accent); }
ul.pages li a::after { content: "\2192"; color: var(--muted); margin-left: auto; }
.icon {
  flex: 0 0 2.25rem;
  width: 2.25rem;
  height: 2.25rem;
  border-radius: .45rem;
  display: grid;
  place-items: center;
  overflow: hidden;
  background: var(--bg);
  border: 1px solid var(--border);
}
.icon img { width: 100%; height: 100%; object-fit: contain; }
.icon-text { font-size: 1.25rem; line-height: 1; border: none; background: none; }
.icon-gen {
  background: hsl(var(--h) 55% 45%);
  border-color: transparent;
  color: #fff;
  font-size: .8rem;
  font-weight: 600;
  letter-spacing: .02em;
}
.meta { display: flex; flex-direction: column; min-width: 0; }
.meta .title { font-weight: 500; white-space: nowrap; overflow: hidden; text-overflow: ellipsis; }
.meta .slug { color: var(--muted); font-size: .8rem; font-family: ui-monospace, SFMono-Regular, Menlo, monospace; }
.meta .when { font-family: -apple-system, BlinkMacSystemFont, "Segoe UI", Roboto, sans-serif; }
.meta .when::before { content: "\00b7"; margin-right: .35rem; }
.empty, .no-match { color: var(--muted); text-align: center; padding: 2rem 0; }
.no-match { display: none; }
"#;

/// How the index is searched.
pub const INDEX_SEARCH_SCRIPT: &'static str = r#"
<script>
  const input = document.getElementById('q');
  const items = Array.from(document.getElementById('list').children);
  const noMatch = document.getElementById('no-match');
  input.addEventListener('input', () => {
    const q = input.value.trim().toLowerCase();
    let visible = 0;
    items.forEach((li) => {
      const match = (li.dataset.slug + ' ' + (li.dataset.title || '')).includes(q);
      li.style.display = match ? '' : 'none';
      if (match) visible++;
    });
    noMatch.style.display = (items.length > 0 && visible === 0 && q !== '') ? 'block' : 'none';
  });
</script>
"#;

/// A page on the index.
pub struct PageCard {
    pub slug: String,
    pub title: Option<String>,
    pub icon: Icon,
    /// When it changed, in seconds of the clock.
    pub modified: Option<u64>,
}

/// Whether a page stands on the index for a visitor: it is listed, it is not
/// hidden, and the visitor could open it. A gated app's title is as sensitive
/// as its contents.
pub open spec fn shows(
    accounts: Accounts,
    meta: PageMeta,
    app_meta: PageMeta,
    slug: Seq<char>,
    visitor: Option<Seq<char>>,
) -> bool {
    !meta.hidden && meta.listed && gate_admits(
        accounts,
        gate_of(app_meta, "/"@ + rest_of(slug)),
        head_of(slug),
        visitor,
    )
}

/// Whether a page stands on the index for a visitor. `meta` is the page's own,
/// `app_meta` that of the app it belongs to.
pub fn on_index(
    accounts: &Accounts,
    meta: &PageMeta,
    app_meta: &PageMeta,
    slug: &str,
    visitor: Option<&User>,
) -> (r: bool)
    ensures
        r == shows(*accounts, *meta, *app_meta, slug@, id_of(visitor)),
{
    let (app, rest) = match crate::text::split_once(slug, '/') {
        Some((app, rest)) => (app, rest),
        None => (slug.to_owned(), String::new()),
    };
    let gate = app_meta.gate_for("/".to_owned().concat(rest.as_str()).as_str());
    proof {
        assert(rest@ =~= rest_of(slug@));
        assert(app@ =~= head_of(slug@));
    }
    !meta.hidden && meta.listed && admits(accounts, gate.as_str(), app.as_str(), visitor)
}

/// Whether one time is later than another; no time is the earliest.
pub open spec fn later(a: Option<u64>, b: Option<u64>) -> bool {
    match (a, b) {
        (Some(x), Some(y)) => x > y,
        (Some(_), None) => true,
        _ => false,
    }
}

/// Whether a card may stand before another: the newest first, and cards of one
/// time by their slugs.
pub open spec fn precedes(a: PageCard, b: PageCard) -> bool {
    later(a.modified, b.modified) || (a.modified == b.modified && le(a.slug@, b.slug@))
}

/// Whether a list of cards is in order.
pub open spec fn cards_in_order(cards: Seq<PageCard>) -> bool {
    forall|i: int, j: int|
        0 <= i < j < cards.len() ==> precedes(#[trigger] cards[i], #[trigger] cards[j])
}

/// Whether a card may stand before another.
fn card_precedes(a: &PageCard, b: &PageCard) -> (r: bool)
    ensures
        r == precedes(*a, *b),
{
    match (a.modified, b.modified) {
        (Some(x), Some(y)) => x > y || (x == y && not_after(a.slug.as_str(), b.slug.as_str())),
        (Some(_), None) => true,
        (None, Some(_)) => false,
        (None, None) => not_after(a.slug.as_str(), b.slug.as_str()),
    }
}

/// Puts cards in order: the page you just pushed should be at the top.
pub fn order_cards(cards: Vec<PageCard>) -> (r: Vec<PageCard>)
    ensures
        cards_in_order(r@),
        r@.to_multiset() == cards@.to_multiset(),
        r.len() == cards.len(),
{
    let ghost all = cards@;
    let mut rest = cards;
    let mut r: Vec<PageCard> = Vec::new();
    proof {
        assert(all.take(0) =~= r@);
        assert(all.skip(0) =~= all);
    }
    while rest.len() > 0
        invariant
            rest@ == all.skip(r.len() as int),
            r.len() <= all.len(),
            rest.len() == all.len() - r.len(),
            cards_in_order(r@),
            r@.to_multiset() == all.take(r.len() as int).to_multiset(),
        decreases rest.len(),
    {
        let ghost n = r.len() as int;
        let card = rest.remove(0);
        let mut k: usize = 0;
        while k < r.len() && card_precedes(&r[k], &card)
            invariant
                k <= r.len(),
                forall|j: int| 0 <= j < k ==> precedes(#[trigger] r@[j], card),
            decreases r.len() - k,
        {
            k += 1;
        }
        let ghost before = r@;
        r.insert(k, card);
        proof {
            let after = r@;
            assert(after =~= before.insert(k as int, card));
            vstd::seq_lib::to_multiset_insert(before, k as int, card);
            assert(all.take(n + 1) =~= all.take(n).push(card));
            vstd::seq_lib::to_multiset_build(all.take(n), card);
            assert(rest@ =~= all.skip(n + 1));
            if k < before.len() {
                lemma_le_total(before[k as int].slug@, card.slug@);
            }
            assert forall|p: int, q: int| 0 <= p < q < after.len() implies precedes(
                #[trigger] after[p],
                #[trigger] after[q],
            ) by {
                let po = if p < k {
                    p
                } else {
                    p - 1
                };
                let qo = if q < k {
                    q
                } else {
                    q - 1
                };
                if p != k && q != k {
                    assert(after[p] == before[po] && after[q] == before[qo]);
                } else if q == k {
                    assert(precedes(before[p], card));
                } else {
                    assert(after[q] == before[qo]);
                    assert(precedes(card, before[k as int]));
                    if qo > k {
                        let m = before[k as int];
                        let z = before[qo];
                        assert(precedes(m, z));
                        if card.modified == m.modified && m.modified == z.modified {
                            lemma_le_transitive(card.slug@, m.slug@, z.slug@);
                        }
                    }
                }
            }
        }
    }
    proof {
        assert(all.take(all.len() as int) =~= all);
    }
    r
}

/// The text of an optional title.
pub open spec fn title_text(title: Option<String>) -> Option<Seq<char>> {
    match title {
        Some(t) => Some(t@),
        None => None,
    }
}

/// One card of the index. With a title the slug becomes the subtitle; without
/// one it is all there is to show.
pub open spec fn card_html(card: PageCard, now: u64) -> Seq<char> {
    let title = title_text(card.title);
    let shown = match title {
        Some(t) => t,
        None => card.slug@,
    };
    let head = "<li data-slug=\""@ + escaped(lowercase(card.slug@)) + "\" data-title=\""@
        + escaped(
        lowercase(
            match title {
                Some(t) => t,
                None => Seq::empty(),
            },
        ),
    ) + "\"><a href=\"/p/"@ + escaped(card.slug@) + "\">"@ + icon_html(card.icon@)
        + "<span class=\"meta\"><span class=\"title\">"@ + escaped(shown)
        + "</span><span class=\"slug\">"@;
    let with_slug = if title is Some {
        head + escaped(card.slug@)
    } else {
        head
    };
    let with_age = match card.modified {
        Some(then) => with_slug + " <span class=\"when\">"@ + escaped(
            age(
                if then <= now {
                    (now - then) as nat
                } else {
                    0
                },
            ),
        ) + "</span>"@,
        None => with_slug,
    };
    with_age + "</span></span></a></li>"@
}

/// One card of the index.
pub fn card_markup(card: &PageCard, now: u64) -> (r: String)
    ensures
        r@ == card_html(*card, now),
{
    let (shown, searched): (String, String) = match &card.title {
        Some(t) => (t.clone(), t.clone()),
        None => (card.slug.clone(), String::new()),
    };
    let lower_slug = to_lowercase(card.slug.as_str());
    let lower_title = to_lowercase(searched.as_str());
    proof {
        assert(card.title is None ==> searched@ =~= Seq::<char>::empty());
    }
    let mut r = "<li data-slug=\"".to_owned().concat(
        escape_html(lower_slug.as_str()).as_str(),
    ).concat("\" data-title=\"").concat(escape_html(lower_title.as_str()).as_str()).concat(
        "\"><a href=\"/p/",
    ).concat(escape_html(card.slug.as_str()).as_str()).concat("\">").concat(
        icon_markup(&card.icon).as_str(),
    ).concat("<span class=\"meta\"><span class=\"title\">").concat(
        escape_html(shown.as_str()).as_str(),
    ).concat("</span><span class=\"slug\">");
    if card.title.is_some() {
        r = r.concat(escape_html(card.slug.as_str()).as_str());
    }
    if let Some(then) = card.modified {
        r = r.concat(" <span class=\"when\">").concat(
            escape_html(relative_time(then, now).as_str()).as_str(),
        ).concat("</span>");
    }
    r.concat("</span></span></a></li>")
}

/// How many pages there are, in words.
pub open spec fn count_label(n: nat) -> Seq<char> {
    if n == 0 {
        "No pages yet"@
    } else if n == 1 {
        "1 page"@
    } else {
        digits(n) + " pages"@
    }
}

/// The cards of the index, one after another.
pub open spec fn cards_html(cards: Seq<PageCard>, now: u64) -> Seq<char>
    decreases cards.len(),
{
    if cards.len() == 0 {
        Seq::empty()
    } else {
        cards_html(cards.drop_last(), now) + card_html(cards.last(), now)
    }
}

/// The index of what there is, for cards in order.
pub open spec fn index_html(cards: Seq<PageCard>, now: u64) -> Seq<char> {
    let head = crate::ui::HEAD@ + "Pages</title><style>"@ + INDEX_STYLE@
        + "</style></head><body><div class=\"container\"><h1>Pages</h1><p class=\"count\">"@
        + escaped(count_label(cards.len())) + "</p>"@;
    if cards.len() == 0 {
        head + "<p class=\"empty\">No pages yet. Push one to see it here.</p></div></body></html>"@
    } else {
        head
            + "<input type=\"search\" id=\"q\" placeholder=\"Filter pages…\" autocomplete=\"off\"><ul class=\"pages\" id=\"list\">"@
            + cards_html(cards, now)
            + "</ul><p class=\"no-match\" id=\"no-match\">No pages match that.</p></div>"@
            + INDEX_SEARCH_SCRIPT@ + "</body></html>"@
    }
}

/// The cards of the index, one after another.
fn cards_markup(cards: &Vec<PageCard>, now: u64) -> (r: String)
    ensures
        r@ == cards_html(cards@, now),
{
    let mut r = String::new();
    let mut i: usize = 0;
    while i < cards.len()
        invariant
            i <= cards.len(),
            r@ == cards_html(cards@.take(i as int), now),
        decreases cards.len() - i,
    {
        proof {
            assert(cards@.take(i + 1).drop_last() =~= cards@.take(i as int));
        }
        r = r.concat(card_markup(&cards[i], now).as_str());
        i += 1;
    }
    proof {
        assert(cards@.take(cards@.len() as int) =~= cards@);
    }
    r
}

/// A page that could stand on the index.
pub struct Candidate {
    pub card: PageCard,
    /// The page's own settings.
    pub meta: PageMeta,
    /// The settings of the app that it belongs to.
    pub app_meta: PageMeta,
}

/// Which candidates stand on the index for a visitor.
pub open spec fn showing(accounts: Accounts, visitor: Option<Seq<char>>) -> spec_fn(
    Candidate,
) -> bool {
    |c: Candidate| shows(accounts, c.meta, c.app_meta, c.card.slug@, visitor)
}

/// The cards of candidates.
pub open spec fn cards_of(pages: Seq<Candidate>) -> Seq<PageCard> {
    pages.map_values(|c: Candidate| c.card)
}

/// Whether cards are those of the index for a visitor, in order.
pub open spec fn is_index(
    cards: Seq<PageCard>,
    accounts: Accounts,
    pages: Seq<Candidate>,
    visitor: Option<Seq<char>>,
) -> bool {
    &&& cards_in_order(cards)
    &&& cards.to_multiset() == cards_of(
        pages.filter(showing(accounts, visitor)),
    ).to_multiset()
}

/// The cards of candidates.
fn only_cards(pages: Vec<Candidate>) -> (r: Vec<PageCard>)
    ensures
        r@ == cards_of(pages@),
{
    let ghost all = pages@;
    let mut rest = pages;
    let mut r: Vec<PageCard> = Vec::new();
    while rest.len() > 0
        invariant
            r.len() <= all.len(),
            rest@ == all.skip(r.len() as int),
            r@ == cards_of(all).take(r.len() as int),
        decreases rest.len(),
    {
        let ghost n = r.len() as int;
        let page = rest.remove(0);
        r.push(page.card);
        proof {
            assert(rest@ =~= all.skip(n + 1));
            assert(r@ =~= cards_of(all).take(n + 1));
        }
    }
    r
}

/// The index of what there is, as far as a visitor may see it.
pub fn index(
    accounts: &Accounts,
    pages: Vec<Candidate>,
    visitor: Option<&User>,
    now: u64,
) -> (r: Reply)
    ensures
        exists|cards: Seq<PageCard>|
            is_index(cards, *accounts, pages@, id_of(visitor)) && r@ == html(
                200,
                #[trigger] index_html(cards, now),
            ),
{
    let ghost all = pages@;
    let mut pages = pages;
    let test = |c: &Candidate| -> (b: bool)
        ensures
            b == showing(*accounts, id_of(visitor))(*c)
    { on_index(accounts, &c.meta, &c.app_meta, c.card.slug.as_str(), visitor) };
    keep(&mut pages, test, Ghost(showing(*accounts, id_of(visitor))));
    let cards = order_cards(only_cards(pages));
    assert(is_index(cards@, *accounts, all, id_of(visitor)));
    let label: String = if cards.len() == 0 {
        "No pages yet".to_owned()
    } else if cards.len() == 1 {
        "1 page".to_owned()
    } else {
        decimal(cards.len() as u64).concat(" pages")
    };
    let head = crate::ui::HEAD.to_owned().concat("Pages</title><style>").concat(
        INDEX_STYLE,
    ).concat(
        "</style></head><body><div class=\"container\"><h1>Pages</h1><p class=\"count\">",
    ).concat(escape_html(label.as_str()).as_str()).concat("</p>");
    let body: String = if cards.len() == 0 {
        head.concat(
            "<p class=\"empty\">No pages yet. Push one to see it here.</p></div></body></html>",
        )
    } else {
        head.concat(
            "<input type=\"search\" id=\"q\" placeholder=\"Filter pages…\" autocomplete=\"off\"><ul class=\"pages\" id=\"list\">",
        ).concat(cards_markup(&cards, now).as_str()).concat(
            "</ul><p class=\"no-match\" id=\"no-match\">No pages match that.</p></div>",
        ).concat(INDEX_SEARCH_SCRIPT).concat("</body></html>")
    };
    assert(body@ == index_html(cards@, now));
    Reply::html(200, body)
}

/// A gated app is not advertised: on the index of a visitor whom its gate does
/// not admit it does not stand, listed or not; and neither do a hidden page and
/// an unlisted one. Every card on the index is that of a page which is listed,
/// not hidden, and open to the visitor.
pub proof fn index_shows_what_a_visitor_can_open(
    cards: Seq<PageCard>,
    accounts: Accounts,
    pages: Seq<Candidate>,
    visitor: Option<Seq<char>>,
    k: int,
)
    requires
        is_index(cards, accounts, pages, visitor),
        0 <= k < cards.len(),
    ensures
        exists|i: int|
            0 <= i < pages.len() && (#[trigger] pages[i]).card == cards[k] && !pages[i].meta.hidden
                && pages[i].meta.listed && gate_admits(
                accounts,
                gate_of(pages[i].app_meta, "/"@ + rest_of(cards[k].slug@)),
                head_of(cards[k].slug@),
                visitor,
            ),
{
    broadcast use vstd::seq_lib::group_to_multiset_ensures;

    let kept = pages.filter(showing(accounts, visitor));
    assert(cards.to_multiset().count(cards[k]) > 0) by {
        assert(cards.contains(cards[k]));
    }
    assert(cards_of(kept).contains(cards[k]));
    let j = choose|j: int| 0 <= j < cards_of(kept).len() && cards_of(kept)[j] == cards[k];
    lemma_from_all(pages, showing(accounts, visitor), j);
}

/// What a filter keeps comes from what was there, and fits.
proof fn lemma_from_all(pages: Seq<Candidate>, fits: spec_fn(Candidate) -> bool, j: int)
    requires
        0 <= j < pages.filter(fits).len(),
    ensures
        fits(pages.filter(fits)[j]),
        exists|i: int| 0 <= i < pages.len() && #[trigger] pages[i] == pages.filter(fits)[j],
    decreases pages.len(),
{
    reveal(Seq::filter);
    pages.lemma_filter_pred(fits, j);
    if pages.len() > 0 {
        let front = pages.drop_last().filter(fits);
        if j < front.len() {
            lemma_from_all(pages.drop_last(), fits, j);
            let i = choose|i: int|
                0 <= i < pages.drop_last().len() && #[trigger] pages.drop_last()[i] == front[j];
            assert(pages[i] == pages.filter(fits)[j]);
        } else {
            assert(pages[pages.len() - 1] == pages.filter(fits)[j]);
        }
    }
}

/// A page that is listed, not hidden and open to the visitor stands on the
/// index.
pub proof fn index_shows_all_that_it_may(
    cards: Seq<PageCard>,
    accounts: Accounts,
    pages: Seq<Candidate>,
    visitor: Option<Seq<char>>,
    i: int,
)
    requires
        is_index(cards, accounts, pages, visitor),
        0 <= i < pages.len(),
        showing(accounts, visitor)(pages[i]),
    ensures
        cards.contains(pages[i].card),
{
    broadcast use vstd::seq_lib::group_to_multiset_ensures;

    let kept = pages.filter(showing(accounts, visitor));
    pages.lemma_filter_contains(showing(accounts, visitor), i);
    let j = choose|j: int| 0 <= j < kept.len() && kept[j] == pages[i];
    assert(cards_of(kept)[j] == pages[i].card);
    assert(cards_of(kept).contains(pages[i].card));
    assert(cards.to_multiset().count(pages[i].card) > 0);
}

} // verus!
