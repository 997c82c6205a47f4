//! Values the owner sets for one app: API keys, endpoints, anything that must
//! not travel in a bundle a visitor can download.
//!
//! A handler can read them. Nothing else can: they are not in the source
//! archive, not under `/p/`, and no tool returns a value — only names. That
//! asymmetry is the whole point, so it is enforced here rather than left to
//! each caller to remember.
use crate::config::Config;
use crate::content::slug::{
    alnum, escape_html, escaped, is_alnum, is_drawn, is_slug, random_token, valid_slug,
};
use crate::content::store::{beside, file_beside, inside, join_path};
use crate::crypto::{
    base64_decoded, decode_standard, decrypt, encode_standard, encrypt, opened_bytes, random_bytes,
    sealed_bytes,
};
use crate::platform::upload::{live, sweep, UploadTicket};
use crate::reply::{elsewhere, html, plain, with_header, Answer, Reply};
use crate::table::Table;
use crate::text::{
    find, in_order, join, joined, lines, lines_of, pairs, split_once, starts_with, strip_both, stripped,
    strip_prefix, texts, to_chars, trim, trimmed, utf8_text,
};
use crate::ui::{form_document, form_page};
use vstd::prelude::*;
use vstd::utf8::{decode_utf8, encode_utf8, valid_utf8};

verus! {

/// Where the key lives when the environment does not supply one. Under the
/// dot-directory no slug can name, like the account database.
pub fn key_path(config: &Config) -> (r: String)
    ensures
        r@ == inside(inside(config.data_dir@, ".site"@), "secret.key"@),
{
    join_path(join_path(config.data_dir.as_str(), ".site").as_str(), "secret.key")
}

/// The key that settings are encrypted with, from what the environment says and
/// from what is stored: the environment wins, and must hold 32 bytes in base64;
/// a stored key counts where it has 32 bytes. Nothing means that a fresh one is
/// needed.
pub open spec fn key_from(configured: Option<Seq<char>>, stored: Option<Seq<u8>>) -> Result<
    Option<Seq<u8>>,
    Seq<char>,
> {
    match configured {
        Some(text) => match base64_decoded(trimmed(text)) {
            None => Err("TOOLSITE_SECRET_KEY must be base64"@),
            Some(key) => if key.len() == 32 {
                Ok(Some(key))
            } else {
                Err("TOOLSITE_SECRET_KEY must decode to 32 bytes"@)
            },
        },
        None => match stored {
            Some(key) => if key.len() == 32 {
                Ok(Some(key))
            } else {
                Ok(None)
            },
            None => Ok(None),
        },
    }
}

/// The key that settings are encrypted with, where there is one.
///
/// The environment is the honest option: the key lives somewhere the data
/// volume is not, so a copy of the volume is not a copy of the secrets. Without
/// it one is generated beside them, which still protects a backup that loses
/// only the database file, and is stated plainly rather than pretended to be
/// more.
pub fn key(configured: Option<&str>, stored: Option<&[u8]>) -> (r: Result<Option<Vec<u8>>, String>)
    ensures
        match (
            r,
            key_from(
                match configured {
                    Some(s) => Some(s@),
                    None => None,
                },
                match stored {
                    Some(b) => Some(b@),
                    None => None,
                },
            ),
        ) {
            (Ok(Some(k)), Ok(Some(s))) => k@ == s,
            (Ok(None), Ok(None)) => true,
            (Err(m), Err(n)) => m@ == n,
            _ => false,
        },
        r matches Ok(Some(k)) ==> k.len() == 32,
{
    match configured {
        Some(text) => match decode_standard(trim(text).as_str()) {
            None => Err("TOOLSITE_SECRET_KEY must be base64".to_owned()),
            Some(key) => if key.len() == 32 {
                Ok(Some(key))
            } else {
                Err("TOOLSITE_SECRET_KEY must decode to 32 bytes".to_owned())
            },
        },
        None => match stored {
            Some(bytes) => if bytes.len() == 32 {
                let mut key: Vec<u8> = Vec::new();
                key.extend_from_slice(bytes);
                assert(key@ =~= bytes@);
                Ok(Some(key))
            } else {
                Ok(None)
            },
            None => Ok(None),
        },
    }
}

/// A fresh key, which only chance decides.
pub fn fresh_key() -> (r: Vec<u8>)
    ensures
        r.len() == 32,
{
    random_bytes(32)
}

/// What a stored setting opens to under a key: its nonce stands before its
/// sealed text.
pub open spec fn opened(key: Seq<u8>, stored: Seq<char>) -> Option<Seq<char>> {
    match base64_decoded(stored) {
        None => None,
        Some(raw) => if raw.len() < 24 {
            None
        } else {
            match opened_bytes(key, raw.take(24), raw.skip(24)) {
                None => None,
                Some(plain) => if valid_utf8(plain) {
                    Some(decode_utf8(plain))
                } else {
                    None
                },
            }
        },
    }
}

/// Seals a value under a key with the nonce that was drawn: it then opens to the
/// value again.
pub fn seal_with(key: &Vec<u8>, nonce: &Vec<u8>, value: &str) -> (r: Result<String, String>)
    requires
        key.len() == 32,
        nonce.len() == 24,
    ensures
        match r {
            Ok(s) => opened(key@, s@) == Some(value@) && sealed_bytes(
                key@,
                nonce@,
                encode_utf8(value@),
            ) is Some,
            Err(m) => sealed_bytes(key@, nonce@, encode_utf8(value@)) is None && m@
                == "could not encrypt"@,
        },
{
    match encrypt(key, nonce, value.as_bytes()) {
        None => Err("could not encrypt".to_owned()),
        Some(sealed) => {
            let mut stored: Vec<u8> = nonce.clone();
            assert(stored@ =~= nonce@);
            stored.extend_from_slice(sealed.as_slice());
            proof {
                assert(stored@ =~= nonce@ + sealed@);
                assert(stored@.take(24) =~= nonce@);
                assert(stored@.skip(24) =~= sealed@);
                vstd::utf8::encode_utf8_valid_utf8(value@);
                vstd::utf8::encode_utf8_decode_utf8(value@);
            }
            Ok(encode_standard(stored.as_slice()))
        },
    }
}

/// Seals a value under a key. Which text comes out is left to chance, so the
/// same value stored twice does not look the same.
pub fn seal(key: &Vec<u8>, value: &str) -> (r: Result<String, String>)
    requires
        key.len() == 32,
    ensures
        match r {
            Ok(s) => opened(key@, s@) == Some(value@),
            Err(m) => m@ == "could not encrypt"@ && exists|nonce: Seq<u8>|
                nonce.len() == 24 && (#[trigger] sealed_bytes(
                    key@,
                    nonce,
                    encode_utf8(value@),
                )) is None,
        },
{
    let nonce = random_bytes(24);
    seal_with(key, &nonce, value)
}

/// Opens a stored setting under a key.
pub fn open(key: &Vec<u8>, stored: &str) -> (r: Option<String>)
    requires
        key.len() == 32,
    ensures
        match (r, opened(key@, stored@)) {
            (Some(a), Some(b)) => a@ == b,
            (None, None) => true,
            _ => false,
        },
{
    let raw = match decode_standard(stored) {
        Some(raw) => raw,
        None => {
            return None;
        },
    };
    if raw.len() < 24 {
        return None;
    }
    let (nonce, sealed) = raw.as_slice().split_at(24);
    proof {
        assert(nonce@ =~= raw@.take(24));
        assert(sealed@ =~= raw@.skip(24));
    }
    match decrypt(key, nonce, sealed) {
        Some(plain) => utf8_text(plain.as_slice()),
        None => None,
    }
}

/// Where the settings of an app are kept, if it can have any: beside the app,
/// like the other sidecars, and served by nothing.
pub fn settings_path(config: &Config, app: &str) -> (r: Option<String>)
    ensures
        match r {
            Some(p) => is_slug(app@) && p@ == beside(*config, app@, ".secrets"@),
            None => !is_slug(app@),
        },
{
    if valid_slug(app) {
        Some(file_beside(config, app, ".secrets"))
    } else {
        None
    }
}

/// Whether a list names what is set, and nothing else.
pub open spec fn names_all(listed: Seq<Seq<char>>, settings: Map<Seq<char>, String>) -> bool {
    forall|k: Seq<char>| listed.contains(k) == #[trigger] settings.contains_key(k)
}

/// Names only. There is deliberately no function returning every value: a
/// handler asks for one at a time, and nothing else asks at all.
pub fn names(settings: &Table<String>) -> (r: Vec<String>)
    ensures
        in_order(texts(r@)),
        texts(r@).no_duplicates(),
        names_all(texts(r@), settings@),
{
    settings.names()
}

/// The value of a setting under a key.
pub open spec fn value_of(
    settings: Map<Seq<char>, String>,
    key: Seq<u8>,
    name: Seq<char>,
) -> Option<Seq<char>> {
    if settings.contains_key(name) {
        opened(key, settings[name]@)
    } else {
        None
    }
}

/// The value of a setting.
pub fn get(settings: &Table<String>, key: &Vec<u8>, name: &str) -> (r: Option<String>)
    requires
        key.len() == 32,
    ensures
        match (r, value_of(settings@, key@, name@)) {
            (Some(a), Some(b)) => a@ == b,
            (None, None) => true,
            _ => false,
        },
{
    match settings.get(name) {
        Some(stored) => open(key, stored.as_str()),
        None => None,
    }
}

/// Whether a name is one that a setting may have: letters, digits and
/// underscores.
pub open spec fn is_setting(name: Seq<char>) -> bool {
    name.len() > 0 && forall|i: int|
        0 <= i < name.len() ==> is_alnum(#[trigger] name[i]) || name[i] == '_'
}

/// Whether a name is one that a setting may have.
pub fn valid_setting(name: &str) -> (r: bool)
    ensures
        r == is_setting(name@),
{
    let v = to_chars(name);
    let mut i: usize = 0;
    while i < v.len()
        invariant
            i <= v.len(),
            v@ == name@,
            forall|j: int| 0 <= j < i ==> is_alnum(#[trigger] v@[j]) || v@[j] == '_',
        decreases v.len() - i,
    {
        if !(alnum(v[i]) || v[i] == '_') {
            assert(!(is_alnum(name@[i as int]) || name@[i as int] == '_'));
            return false;
        }
        i += 1;
    }
    v.len() > 0
}

/// Why a setting is refused before its value is looked at.
pub open spec fn setting_refusal(app: Seq<char>, name: Seq<char>) -> Option<Seq<char>> {
    if !is_slug(app) {
        Some("invalid app name '"@ + app + "'"@)
    } else if !is_setting(name) {
        Some("a setting's name must be letters, numbers or '_'"@)
    } else {
        None
    }
}

/// Setting an existing name replaces it; passing no value removes it. What was
/// set reads back as it was given, and no other setting changes.
pub fn set(
    settings: &mut Table<String>,
    app: &str,
    key: &Vec<u8>,
    name: &str,
    value: Option<&str>,
) -> (r: Result<(), String>)
    requires
        key.len() == 32,
    ensures
        final(settings)@.remove(name@) == old(settings)@.remove(name@),
        match r {
            Ok(_) => setting_refusal(app@, name@) is None && value_of(
                final(settings)@,
                key@,
                name@,
            ) == match value {
                Some(v) => Some(v@),
                None => None,
            } && match value {
                Some(_) => final(settings)@.contains_key(name@),
                None => old(settings)@.contains_key(name@) && !final(settings)@.contains_key(name@),
            },
            Err(m) => {
                &&& final(settings)@ == old(settings)@
                &&& match setting_refusal(app@, name@) {
                    Some(why) => m@ == why,
                    None => match value {
                        Some(v) => m@ == "could not encrypt"@ && exists|nonce: Seq<u8>|
                            nonce.len() == 24 && (#[trigger] sealed_bytes(
                                key@,
                                nonce,
                                encode_utf8(v@),
                            )) is None,
                        None => !old(settings)@.contains_key(name@) && m@ == app@
                            + " has no setting called "@ + name@,
                    },
                }
            },
        },
{
    if !valid_slug(app) {
        return Err("invalid app name '".to_owned().concat(app).concat("'"));
    }
    if !valid_setting(name) {
        return Err("a setting's name must be letters, numbers or '_'".to_owned());
    }
    match value {
        Some(value) => match seal(key, value) {
            Ok(sealed) => {
                settings.insert(name.to_owned(), sealed);
                assert(settings@.remove(name@) =~= old(settings)@.remove(name@));
                Ok(())
            },
            Err(m) => Err(m),
        },
        None => match settings.remove(name) {
            Some(_) => {
                assert(settings@.remove(name@) =~= old(settings)@.remove(name@));
                Ok(())
            },
            None => {
                assert(settings@ =~= old(settings)@);
                Err(app.to_owned().concat(" has no setting called ").concat(name))
            },
        },
    }
}

/// Long enough to reach someone, short enough that a forgotten link is not a
/// standing way to rewrite an app's credentials. In milliseconds.
pub const ENTRY_TTL: u64 = 3_600_000;

/// What the link to enter settings is kept under.
pub open spec fn entry_name(token: Seq<char>) -> Seq<char> {
    "settings:"@ + token
}

/// Makes a link to enter settings with the token that was drawn for it.
pub fn create_entry_with(config: &mut Config, app: &str, token: String, now: u64) -> (r: Result<
    String,
    String,
>)
    requires
        now <= u64::MAX - ENTRY_TTL,
    ensures
        match r {
            Ok(url) => {
                &&& is_slug(app@)
                &&& url@ == old(config).public_base() + "/settings/"@ + token@
                &&& final(config).uploads@.remove(entry_name(token@)) == live(
                    old(config).uploads@,
                    now,
                ).remove(entry_name(token@))
                &&& final(config).uploads@.contains_key(entry_name(token@))
                &&& final(config).uploads@[entry_name(token@)].slug@ == app@
                &&& final(config).uploads@[entry_name(token@)].expires_at == now + ENTRY_TTL
            },
            Err(m) => !is_slug(app@) && m@ == "invalid app name"@ && final(config).uploads@ == old(
                config,
            ).uploads@,
        },
        final(config).data_dir == old(config).data_dir,
        final(config).base_url == old(config).base_url,
        final(config).local_base == old(config).local_base,
        final(config).valid_tokens == old(config).valid_tokens,
        final(config).oauth == old(config).oauth,
        final(config).databases == old(config).databases,
{
    if !valid_slug(app) {
        return Err("invalid app name".to_owned());
    }
    sweep(&mut config.uploads, now);
    let name = "settings:".to_owned().concat(token.as_str());
    let ghost k = name@;
    let ghost swept = config.uploads@;
    config.uploads.insert(
        name,
        UploadTicket { slug: app.to_owned(), expires_at: now + ENTRY_TTL },
    );
    proof {
        assert(config.uploads@.remove(k) =~= swept.remove(k));
    }
    let base: String = match &config.base_url {
        Some(base) => base.clone(),
        None => config.local_base.clone(),
    };
    Ok(base.concat("/settings/").concat(token.as_str()))
}

/// A link the owner opens to type values in. An agent can create one and pass
/// it on without ever handling a secret itself, which is the point: values
/// that never enter a conversation cannot leak from one.
pub fn create_entry(config: &mut Config, app: &str, now: u64) -> (r: Result<String, String>)
    requires
        now <= u64::MAX - ENTRY_TTL,
    ensures
        match r {
            Ok(url) => is_slug(app@) && exists|token: Seq<char>|
                is_drawn(token, 40) && url@ == old(config).public_base() + "/settings/"@ + token
                    && #[trigger] final(config).uploads@.contains_key(entry_name(token))
                    && final(config).uploads@[entry_name(token)].slug@ == app@
                    && final(config).uploads@[entry_name(token)].expires_at == now + ENTRY_TTL
                    && final(config).uploads@.remove(entry_name(token)) == live(
                    old(config).uploads@,
                    now,
                ).remove(entry_name(token)),
            Err(m) => !is_slug(app@) && m@ == "invalid app name"@ && final(config).uploads@ == old(
                config,
            ).uploads@,
        },
        final(config).data_dir == old(config).data_dir,
        final(config).base_url == old(config).base_url,
        final(config).local_base == old(config).local_base,
        final(config).valid_tokens == old(config).valid_tokens,
        final(config).oauth == old(config).oauth,
        final(config).databases == old(config).databases,
{
    let token = random_token(40);
    create_entry_with(config, app, token, now)
}

/// The app that a link to enter settings is for, while it works.
pub open spec fn entry_of(
    uploads: Map<Seq<char>, UploadTicket>,
    now: u64,
    token: Seq<char>,
) -> Option<Seq<char>> {
    crate::platform::upload::slug_of_ticket(uploads, now, entry_name(token))
}

/// The app that a link to enter settings is for, forgetting expired ones on the
/// way.
pub fn entry_app(uploads: &mut Table<UploadTicket>, now: u64, token: &str) -> (r: Option<String>)
    ensures
        final(uploads)@ == live(old(uploads)@, now),
        match r {
            Some(s) => entry_of(old(uploads)@, now, token@) == Some(s@),
            None => entry_of(old(uploads)@, now, token@) is None,
        },
{
    let name = "settings:".to_owned().concat(token);
    crate::platform::upload::ticket_slug(uploads, now, name.as_str())
}

/// The token of a link, from a query.
pub struct EntryToken {
    pub token: String,
}

/// The answer to a link that no longer works.
pub open spec fn expired_link() -> Answer {
    plain(410, "this link has expired; ask for a new one"@)
}

/// The form to enter settings on. It lists names, never values.
pub open spec fn entry_page(app: Seq<char>, existing: Seq<Seq<char>>, token: Seq<char>) -> Seq<char> {
    let title = "Settings for "@ + app;
    let head = "<form class=\"column\" method=\"post\" action=\"/settings\"><h1>Settings for "@
        + escaped(app)
        + "</h1><p class=\"muted\">One per line, as NAME=value. These are readable only by "@
        + escaped(app) + "'s own code.</p>"@;
    let listed = if existing.len() == 0 {
        head
    } else {
        head + "<p class=\"muted\">Already set: "@ + escaped(joined(existing, ", "@)) + "</p>"@
    };
    form_document(
        title,
        listed + "<input type=\"hidden\" name=\"token\" value=\""@ + escaped(token)
            + "\"><textarea name=\"pasted\" rows=\"8\" placeholder=\"API_KEY=…\nENDPOINT=https://…\" autofocus required></textarea><button type=\"submit\">Save</button></form>"@,
    )
}

/// The form to enter settings on, for the app that a link is for.
pub fn entry_form(app: Option<&str>, existing: &Vec<String>, token: &str) -> (r: Reply)
    ensures
        r@ == match app {
            Some(app) => with_header(
                html(200, entry_page(app@, texts(existing@), token@)),
                "cache-control"@,
                "no-store"@,
            ),
            None => expired_link(),
        },
{
    let app = match app {
        Some(app) => app,
        None => {
            return Reply::says(410, "this link has expired; ask for a new one");
        },
    };
    proof {
        assert(texts(existing@).len() == existing@.len());
    }
    let title = "Settings for ".to_owned().concat(app);
    let shown = escape_html(app);
    let mut body =
        "<form class=\"column\" method=\"post\" action=\"/settings\"><h1>Settings for ".to_owned().concat(
        shown.as_str(),
    ).concat(
        "</h1><p class=\"muted\">One per line, as NAME=value. These are readable only by ",
    ).concat(shown.as_str()).concat("'s own code.</p>");
    if existing.len() > 0 {
        body = body.concat("<p class=\"muted\">Already set: ").concat(
            escape_html(join(existing, ", ").as_str()).as_str(),
        ).concat("</p>");
    }
    let body = body.concat("<input type=\"hidden\" name=\"token\" value=\"").concat(
        escape_html(token).as_str(),
    ).concat(
        "\"><textarea name=\"pasted\" rows=\"8\" placeholder=\"API_KEY=…\nENDPOINT=https://…\" autofocus required></textarea><button type=\"submit\">Save</button></form>",
    );
    Reply::html(200, form_page(title.as_str(), body.as_str())).with("cache-control", "no-store")
}

/// The form to enter settings on, where the link's token stands in a query.
pub fn entry_form_query(app: Option<&str>, existing: &Vec<String>, query: &EntryToken) -> (r: Reply)
    ensures
        r@ == match app {
            Some(app) => with_header(
                html(200, entry_page(app@, texts(existing@), query.token@)),
                "cache-control"@,
                "no-store"@,
            ),
            None => expired_link(),
        },
{
    entry_form(app, existing, query.token.as_str())
}

/// What the form sends.
pub struct PastedSettings {
    pub token: String,
    pub pasted: String,
}

/// The setting that a line stands for, if it stands for one: blank lines and
/// `#` comments are ignored, quotes around a value are stripped, and `export `
/// prefixes are tolerated.
pub open spec fn setting_line(raw: Seq<char>) -> Option<(Seq<char>, Seq<char>)> {
    let line = trimmed(raw);
    let rest = if "export "@.is_prefix_of(line) {
        line.skip("export "@.len() as int)
    } else {
        line
    };
    if line.len() == 0 || "#"@.is_prefix_of(line) || !rest.contains('=') {
        None
    } else {
        let name = trimmed(rest.take(find(rest, '=')));
        let value = stripped(
            stripped(trimmed(rest.skip(find(rest, '=') + 1)), "\""@),
            "'"@,
        );
        if name.len() == 0 || value.len() == 0 {
            None
        } else {
            Some((name, value))
        }
    }
}

/// The settings that lines stand for, in order.
pub open spec fn setting_lines(lines: Seq<Seq<char>>) -> Seq<(Seq<char>, Seq<char>)>
    decreases lines.len(),
{
    if lines.len() == 0 {
        Seq::empty()
    } else {
        let before = setting_lines(lines.drop_last());
        match setting_line(lines.last()) {
            Some(pair) => before.push(pair),
            None => before,
        }
    }
}

/// The setting that a line stands for.
fn parse_line(raw: &str) -> (r: Option<(String, String)>)
    ensures
        match (r, setting_line(raw@)) {
            (Some(p), Some(q)) => p.0@ == q.0 && p.1@ == q.1,
            (None, None) => true,
            _ => false,
        },
{
    let line = trim(raw);
    if line.as_str().is_empty() || starts_with(line.as_str(), "#") {
        return None;
    }
    let rest: String = match strip_prefix(line.as_str(), "export ") {
        Some(rest) => rest,
        None => line,
    };
    match split_once(rest.as_str(), '=') {
        None => None,
        Some((name, value)) => {
            let name = trim(name.as_str());
            let value = strip_both(
                strip_both(trim(value.as_str()).as_str(), "\"").as_str(),
                "'",
            );
            if name.as_str().is_empty() || value.as_str().is_empty() {
                None
            } else {
                Some((name, value))
            }
        },
    }
}

/// `NAME=value` per line, the way a hosting dashboard accepts them, so a .env
/// file can be pasted whole.
pub fn parse_pasted(text: &str) -> (r: Vec<(String, String)>)
    ensures
        pairs(r@) == setting_lines(lines_of(text@)),
{
    let all = lines(text);
    let ghost ls = lines_of(text@);
    let mut r: Vec<(String, String)> = Vec::new();
    let mut i: usize = 0;
    proof {
        assert(pairs(r@) =~= Seq::<(Seq<char>, Seq<char>)>::empty());
    }
    while i < all.len()
        invariant
            i <= all.len(),
            texts(all@) == ls,
            pairs(r@) == setting_lines(ls.take(i as int)),
        decreases all.len() - i,
    {
        proof {
            assert(ls.take(i + 1).drop_last() =~= ls.take(i as int));
            assert(ls.take(i + 1).last() == texts(all@)[i as int]);
        }
        if let Some(pair) = parse_line(all[i].as_str()) {
            let ghost before = r@;
            let ghost p = (pair.0@, pair.1@);
            r.push(pair);
            assert(pairs(r@) =~= pairs(before).push(p));
        }
        i += 1;
    }
    proof {
        assert(ls.take(ls.len() as int) =~= ls);
        assert(texts(all@).len() == all@.len());
    }
    r
}

/// Whether a name is among the first `n` pairs.
pub open spec fn names_pair(given: Seq<(Seq<char>, Seq<char>)>, name: Seq<char>, n: int) -> bool {
    exists|i: int| #![trigger given[i]] 0 <= i < n && given[i].0 == name
}

/// Whether no pair after the one at `i`, among the first `n`, has its name.
pub open spec fn last_of_name(given: Seq<(Seq<char>, Seq<char>)>, i: int, n: int) -> bool {
    forall|j: int| i < j < n ==> (#[trigger] given[j]).0 != given[i].0
}

/// Whether the settings of an app are what the first `n` pairs made of them:
/// each name reads back as its last value, and every other is as it was.
pub open spec fn saved(
    before: Map<Seq<char>, String>,
    after: Map<Seq<char>, String>,
    key: Seq<u8>,
    given: Seq<(Seq<char>, Seq<char>)>,
    n: int,
) -> bool {
    &&& forall|k: Seq<char>|
        !names_pair(given, k, n) ==> #[trigger] after.contains_key(k) == before.contains_key(k) && (
        before.contains_key(k) ==> after[k] == before[k])
    &&& forall|i: int|
        0 <= i < n && #[trigger] last_of_name(given, i, n) ==> value_of(after, key, given[i].0) == Some(given[i].1)
}

/// Setting the next pair carries what was saved on.
proof fn lemma_saved(
    first: Map<Seq<char>, String>,
    before: Map<Seq<char>, String>,
    after: Map<Seq<char>, String>,
    key: Seq<u8>,
    given: Seq<(Seq<char>, Seq<char>)>,
    n: int,
)
    requires
        0 <= n < given.len(),
        saved(first, before, key, given, n),
        after.remove(given[n].0) == before.remove(given[n].0),
        value_of(after, key, given[n].0) == Some(given[n].1),
    ensures
        saved(first, after, key, given, n + 1),
{
    let name = given[n].0;
    assert forall|k: Seq<char>| k != name implies #[trigger] after.contains_key(k)
        == before.contains_key(k) && (before.contains_key(k) ==> after[k] == before[k]) by {
        assert(before.remove(name).contains_key(k) == after.remove(name).contains_key(k));
        assert(before.remove(name)[k] == after.remove(name)[k]);
    }
    assert forall|k: Seq<char>|
        !names_pair(given, k, n + 1) implies #[trigger] after.contains_key(k)
        == first.contains_key(k) && (first.contains_key(k) ==> after[k] == first[k]) by {
        assert(given[n].0 != k);
        assert(!names_pair(given, k, n));
        assert(before.contains_key(k) == first.contains_key(k));
    }
    assert forall|i: int|
        0 <= i < n + 1 && #[trigger] last_of_name(given, i, n + 1) implies value_of(
        after,
        key,
        given[i].0,
    ) == Some(given[i].1) by {
        if i < n {
            assert(given[n].0 != given[i].0);
            assert(last_of_name(given, i, n));
            assert(after.contains_key(given[i].0) == before.contains_key(given[i].0));
            assert(value_of(before, key, given[i].0) == Some(given[i].1));
        }
    }
}

/// What saving settings one after another does, up to the first that is
/// refused.
pub open spec fn pasted_saved(
    before: Map<Seq<char>, String>,
    after: Map<Seq<char>, String>,
    key: Seq<u8>,
    app: Seq<char>,
    given: Seq<(Seq<char>, Seq<char>)>,
    r: Result<usize, String>,
) -> bool {
    match r {
        Ok(n) => n == given.len() && saved(before, after, key, given, n as int) && forall|i: int|
            0 <= i < n ==> setting_refusal(app, (#[trigger] given[i]).0) is None,
        Err(m) => exists|n: int|
            #![trigger given[n]]
            0 <= n < given.len() && saved(before, after, key, given, n) && match setting_refusal(
                app,
                given[n].0,
            ) {
                Some(why) => m@ == why,
                None => m@ == "could not encrypt"@,
            },
    }
}

/// Saves settings one after another, up to the first that is refused.
pub fn save_pasted(
    settings: &mut Table<String>,
    app: &str,
    key: &Vec<u8>,
    given: &Vec<(String, String)>,
) -> (r: Result<usize, String>)
    requires
        key.len() == 32,
    ensures
        pasted_saved(old(settings)@, final(settings)@, key@, app@, pairs(given@), r),
{
    let ghost ps = pairs(given@);
    let mut n: usize = 0;
    while n < given.len()
        invariant
            n <= given.len(),
            key.len() == 32,
            ps == pairs(given@),
            saved(old(settings)@, settings@, key@, ps, n as int),
            forall|i: int| 0 <= i < n ==> setting_refusal(app@, (#[trigger] ps[i]).0) is None,
        decreases given.len() - n,
    {
        let ghost before = settings@;
        proof {
            assert(ps[n as int].0 == given@[n as int].0@);
            assert(ps[n as int].1 == given@[n as int].1@);
        }
        let name = given[n].0.as_str();
        match set(settings, app, key, name, Some(given[n].1.as_str())) {
            Err(m) => {
                assert(saved(old(settings)@, settings@, key@, ps, n as int));
                return Err(m);
            },
            Ok(_) => {},
        }
        proof {
            lemma_saved(old(settings)@, before, settings@, key@, ps, n as int);
        }
        n += 1;
    }
    Ok(n)
}

/// The answer to settings that were entered: back to the form, which now lists
/// the names and never the values.
pub open spec fn submit_answer(token: Seq<char>, outcome: Result<usize, String>) -> Answer {
    match outcome {
        Ok(n) => if n == 0 {
            plain(400, "nothing looked like NAME=value; check the format"@)
        } else {
            elsewhere(303, "/settings/"@ + token)
        },
        Err(m) => plain(400, m@),
    }
}

/// Saves what was entered for the app that a link is for, and answers.
pub fn entry_submit(
    settings: &mut Table<String>,
    key: &Vec<u8>,
    app: Option<&str>,
    form: &PastedSettings,
) -> (r: Reply)
    requires
        key.len() == 32,
    ensures
        match app {
            Some(app) => exists|outcome: Result<usize, String>| #[trigger]
                pasted_saved(
                    old(settings)@,
                    final(settings)@,
                    key@,
                    app@,
                    setting_lines(lines_of(form.pasted@)),
                    outcome,
                ) && r@ == submit_answer(form.token@, outcome),
            None => r@ == expired_link() && final(settings)@ == old(settings)@,
        },
{
    let app = match app {
        Some(app) => app,
        None => {
            return Reply::says(410, "this link has expired; ask for a new one");
        },
    };
    let given = parse_pasted(form.pasted.as_str());
    let outcome = save_pasted(settings, app, key, &given);
    assert(pasted_saved(old(settings)@, settings@, key@, app@, pairs(given@), outcome));
    match outcome {
        Ok(n) => if n == 0 {
            Reply::says(400, "nothing looked like NAME=value; check the format")
        } else {
            Reply::elsewhere(303, "/settings/".to_owned().concat(form.token.as_str()).as_str())
        },
        Err(m) => Reply::plain(400, m),
    }
}

} // verus!
