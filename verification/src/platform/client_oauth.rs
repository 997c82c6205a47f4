//! Signing an outside client in, the way a connector that only speaks OAuth
//! wants it: a code in exchange for consent, a token in exchange for the code.
use crate::accounts::web::{header_from, header_value};
use crate::content::slug::{is_drawn, random_token};
use crate::crypto::{
    base64_decoded, base64_url, decode_standard, digest, encode_url, sha256,
};
use crate::encode::{json_quote, json_string, percent, url_encode};
use crate::reply::{elsewhere, json, plain, Answer, Reply};
use crate::table::Table;
use crate::text::{ends_with, find, same, split_once, strip_prefix, utf8_text};
use axum::http::Uri;
use vstd::prelude::*;
use vstd::utf8::{decode_utf8, encode_utf8, valid_utf8};

verus! {

/// A code that was handed out and not yet exchanged.
pub struct AuthCode {
    pub redirect_uri: String,
    pub code_challenge: Option<String>,
    /// In milliseconds.
    pub expires_at: u64,
}

/// Present only where a client id and a secret are configured. Absent means the
/// server only does plain bearer-token auth, for clients that support that
/// directly.
pub struct OAuth {
    pub client_id: String,
    pub client_secret: String,
    /// The domain whose hosts codes may be sent to.
    pub client_domain: String,
    pub auth_codes: Table<AuthCode>,
}

/// How long a code may be exchanged, in milliseconds.
pub const CODE_TTL: u64 = 60_000;

/// What a client that was refused is pointed at.
pub fn oauth_protected_resource_metadata(base: &str) -> (r: Reply)
    ensures
        r@ == json(
            200,
            "{\"authorization_servers\":["@ + json_string(base@) + "],\"resource\":"@ + json_string(
                base@ + "/mcp"@,
            ) + "}"@,
        ),
{
    let resource = base.to_owned().concat("/mcp");
    Reply::json(
        200,
        "{\"authorization_servers\":[".to_owned().concat(json_quote(base).as_str()).concat(
            "],\"resource\":",
        ).concat(json_quote(resource.as_str()).as_str()).concat("}"),
    )
}

/// What a client may ask of this server, and where.
pub fn oauth_authorization_server_metadata(base: &str) -> (r: Reply)
    ensures
        r@ == json(
            200,
            "{\"authorization_endpoint\":"@ + json_string(base@ + "/authorize"@)
                + ",\"code_challenge_methods_supported\":[\"S256\"],\"grant_types_supported\":[\"authorization_code\",\"refresh_token\"],\"issuer\":"@
                + json_string(base@)
                + ",\"response_types_supported\":[\"code\"],\"token_endpoint\":"@ + json_string(
                base@ + "/token"@,
            )
                + ",\"token_endpoint_auth_methods_supported\":[\"client_secret_post\",\"client_secret_basic\"]}"@,
        ),
{
    let authorize = base.to_owned().concat("/authorize");
    let token = base.to_owned().concat("/token");
    Reply::json(
        200,
        "{\"authorization_endpoint\":".to_owned().concat(
            json_quote(authorize.as_str()).as_str(),
        ).concat(
            ",\"code_challenge_methods_supported\":[\"S256\"],\"grant_types_supported\":[\"authorization_code\",\"refresh_token\"],\"issuer\":",
        ).concat(json_quote(base).as_str()).concat(
            ",\"response_types_supported\":[\"code\"],\"token_endpoint\":",
        ).concat(json_quote(token.as_str()).as_str()).concat(
            ",\"token_endpoint_auth_methods_supported\":[\"client_secret_post\",\"client_secret_basic\"]}",
        ),
    )
}

/// The host that a URI names, if it is one and names any.
pub uninterp spec fn uri_host(uri: Seq<char>) -> Option<Seq<char>>;

/// An optional text.
pub open spec fn text_of(s: Option<String>) -> Option<Seq<char>> {
    match s {
        Some(s) => Some(s@),
        None => None,
    }
}

/// `axum::http::Uri`'s `from_str` and `host`: the host that the text names as a
/// URI, a function of the text.
#[verifier::external_body]
fn host_of(uri: &str) -> (r: Option<String>)
    ensures
        text_of(r) == uri_host(uri@),
{
    uri.parse::<Uri>().ok().and_then(|u| u.host().map(String::from))
}

/// Whether a host is one that codes may be sent to: the domain of the client or
/// a name below it.
pub open spec fn is_client_host(domain: Seq<char>, host: Option<Seq<char>>) -> bool {
    match host {
        Some(h) => domain.len() > 0 && (h == domain || ("."@ + domain).is_suffix_of(h)),
        None => false,
    }
}

/// Whether a host is one that codes may be sent to.
pub fn client_host(domain: &str, host: &Option<String>) -> (r: bool)
    ensures
        r == is_client_host(domain@, text_of(*host)),
{
    match host {
        Some(h) => !domain.is_empty() && (same(h.as_str(), domain) || ends_with(
            h.as_str(),
            ".".to_owned().concat(domain).as_str(),
        )),
        None => false,
    }
}

/// Whether a code may be sent to a URI.
pub fn redirect_uri_allowed(domain: &str, uri: &str) -> (r: bool)
    ensures
        r == is_client_host(domain@, uri_host(uri@)),
{
    client_host(domain, &host_of(uri))
}

/// What a client asks for a code with.
pub struct AuthorizeParams {
    pub response_type: String,
    pub client_id: String,
    pub redirect_uri: String,
    pub state: Option<String>,
    pub code_challenge: Option<String>,
    pub code_challenge_method: Option<String>,
}

/// Where a client is sent back to, with what it is told and the state it gave.
pub open spec fn sent_back(
    redirect_uri: Seq<char>,
    told: Seq<char>,
    state: Option<Seq<char>>,
) -> Answer {
    let url = redirect_uri + told;
    elsewhere(
        303,
        match state {
            Some(state) => url + ("&state="@ + percent(state)),
            None => url,
        },
    )
}

/// Sends a client back.
fn send_back(redirect_uri: &str, told: &str, state: &Option<String>) -> (r: Reply)
    ensures
        r@ == sent_back(redirect_uri@, told@, text_of(*state)),
{
    let url = redirect_uri.to_owned().concat(told);
    let url: String = match state {
        Some(state) => url.concat(
            "&state=".to_owned().concat(url_encode(state.as_str()).as_str()).as_str(),
        ),
        None => url,
    };
    Reply::elsewhere(303, url.as_str())
}

/// Whether a request for a code is refused, and how. `host` is the one that the
/// address to answer to names.
pub open spec fn authorize_refusal(
    client_id: Seq<char>,
    domain: Seq<char>,
    params: AuthorizeParams,
    host: Option<Seq<char>>,
) -> Option<Answer> {
    if !is_client_host(domain, host) {
        Some(plain(400, "redirect_uri not allowed"@))
    } else if params.response_type@ != "code"@ || params.client_id@ != client_id {
        Some(sent_back(params.redirect_uri@, "?error=invalid_request"@, text_of(params.state)))
    } else {
        None
    }
}

/// What is kept of a code.
pub open spec fn kept_code(code: AuthCode, params: AuthorizeParams, now: u64) -> bool {
    &&& code.redirect_uri@ == params.redirect_uri@
    &&& text_of(code.code_challenge) == text_of(params.code_challenge)
    &&& code.expires_at == now + CODE_TTL
}

/// Hands out the code that was drawn, unless the request is refused.
pub fn authorize_with(
    oauth: &mut OAuth,
    params: &AuthorizeParams,
    host: &Option<String>,
    code: String,
    now: u64,
) -> (r: Reply)
    requires
        now <= u64::MAX - CODE_TTL,
    ensures
        final(oauth).client_id == old(oauth).client_id,
        final(oauth).client_secret == old(oauth).client_secret,
        final(oauth).client_domain == old(oauth).client_domain,
        match authorize_refusal(
            old(oauth).client_id@,
            old(oauth).client_domain@,
            *params,
            text_of(*host),
        ) {
            Some(refusal) => r@ == refusal && final(oauth).auth_codes@ == old(oauth).auth_codes@,
            None => {
                &&& r@ == sent_back(
                    params.redirect_uri@,
                    "?code="@ + code@,
                    text_of(params.state),
                )
                &&& final(oauth).auth_codes@.remove(code@) == old(oauth).auth_codes@.remove(code@)
                &&& final(oauth).auth_codes@.contains_key(code@)
                &&& kept_code(final(oauth).auth_codes@[code@], *params, now)
            },
        },
{
    if !client_host(oauth.client_domain.as_str(), host) {
        return Reply::says(400, "redirect_uri not allowed");
    }
    if !same(params.response_type.as_str(), "code") || !same(
        params.client_id.as_str(),
        oauth.client_id.as_str(),
    ) {
        return send_back(params.redirect_uri.as_str(), "?error=invalid_request", &params.state);
    }
    let told = "?code=".to_owned().concat(code.as_str());
    let ghost k = code@;
    let ghost before = oauth.auth_codes@;
    let code_challenge: Option<String> = match &params.code_challenge {
        Some(c) => Some(c.clone()),
        None => None,
    };
    oauth.auth_codes.insert(
        code,
        AuthCode {
            redirect_uri: params.redirect_uri.clone(),
            code_challenge,
            expires_at: now + CODE_TTL,
        },
    );
    proof {
        assert(oauth.auth_codes@.remove(k) =~= before.remove(k));
    }
    send_back(params.redirect_uri.as_str(), told.as_str(), &params.state)
}

/// Hands a client a code at the address it asked to be answered at, where that
/// address is one that codes may be sent to. Which code is left to chance.
pub fn authorize(oauth: &mut OAuth, params: &AuthorizeParams, now: u64) -> (r: Reply)
    requires
        now <= u64::MAX - CODE_TTL,
    ensures
        final(oauth).client_id == old(oauth).client_id,
        final(oauth).client_secret == old(oauth).client_secret,
        final(oauth).client_domain == old(oauth).client_domain,
        match authorize_refusal(
            old(oauth).client_id@,
            old(oauth).client_domain@,
            *params,
            uri_host(params.redirect_uri@),
        ) {
            Some(refusal) => r@ == refusal && final(oauth).auth_codes@ == old(oauth).auth_codes@,
            None => exists|code: Seq<char>|
                {
                    &&& is_drawn(code, 32)
                    &&& r@ == sent_back(
                        params.redirect_uri@,
                        "?code="@ + code,
                        text_of(params.state),
                    )
                    &&& final(oauth).auth_codes@.remove(code) == old(oauth).auth_codes@.remove(code)
                    &&& #[trigger] final(oauth).auth_codes@.contains_key(code)
                    &&& kept_code(final(oauth).auth_codes@[code], *params, now)
                },
        },
{
    let host = host_of(params.redirect_uri.as_str());
    let code = random_token(32);
    authorize_with(oauth, params, &host, code, now)
}

/// What a client asks for a token with.
pub struct TokenRequest {
    pub grant_type: String,
    pub code: Option<String>,
    pub redirect_uri: Option<String>,
    pub client_id: Option<String>,
    pub client_secret: Option<String>,
    pub code_verifier: Option<String>,
}

/// An error as a client expects it.
pub open spec fn oauth_refusal(status: u16, error: Seq<char>) -> Answer {
    json(status, "{\"error\":\""@ + error + "\"}"@)
}

/// An error as a client expects it.
fn oauth_error(status: u16, error: &str) -> (r: Reply)
    ensures
        r@ == oauth_refusal(status, error@),
{
    Reply::json(status, "{\"error\":\"".to_owned().concat(error).concat("\"}"))
}

/// The id and the secret in a header that holds them, if it does.
pub open spec fn basic_credentials(authorization: Option<Seq<char>>) -> Option<
    (Seq<char>, Seq<char>),
> {
    match authorization {
        None => None,
        Some(value) => if !"Basic "@.is_prefix_of(value) {
            None
        } else {
            match base64_decoded(value.skip("Basic "@.len() as int)) {
                None => None,
                Some(bytes) => if !valid_utf8(bytes) || !decode_utf8(bytes).contains(':') {
                    None
                } else {
                    let s = decode_utf8(bytes);
                    Some((s.take(find(s, ':')), s.skip(find(s, ':') + 1)))
                },
            }
        },
    }
}

/// The id and the secret that a client presents: in the header, or else in the
/// form.
pub open spec fn credentials_of(headers: Seq<(String, String)>, body: TokenRequest) -> (
    Option<Seq<char>>,
    Option<Seq<char>>,
) {
    match basic_credentials(header_from(headers, "authorization"@, 0)) {
        Some((id, secret)) => (Some(id), Some(secret)),
        None => (text_of(body.client_id), text_of(body.client_secret)),
    }
}

/// A copy of an optional string.
fn copied(s: &Option<String>) -> (r: Option<String>)
    ensures
        text_of(r) == text_of(*s),
{
    match s {
        Some(s) => Some(s.clone()),
        None => None,
    }
}

/// The id and the secret that a client presents.
pub fn client_credentials(headers: &Vec<(String, String)>, body: &TokenRequest) -> (r: (
    Option<String>,
    Option<String>,
))
    ensures
        (text_of(r.0), text_of(r.1)) == credentials_of(headers@, *body),
{
    if let Some(auth) = header_value(headers, "authorization") {
        if let Some(encoded) = strip_prefix(auth, "Basic ") {
            if let Some(decoded) = decode_standard(encoded.as_str()) {
                if let Some(s) = utf8_text(decoded.as_slice()) {
                    if let Some((id, secret)) = split_once(s.as_str(), ':') {
                        return (Some(id), Some(secret));
                    }
                }
            }
        }
    }
    (copied(&body.client_id), copied(&body.client_secret))
}

/// The token a client gets.
pub open spec fn token_answer(oauth: OAuth) -> Answer {
    json(
        200,
        "{\"access_token\":"@ + json_string(oauth.client_secret@)
            + ",\"expires_in\":31536000,\"refresh_token\":"@ + json_string(oauth.client_secret@)
            + ",\"token_type\":\"Bearer\"}"@,
    )
}

/// The token a client gets.
fn success_token(oauth: &OAuth) -> (r: Reply)
    ensures
        r@ == token_answer(*oauth),
{
    let secret = json_quote(oauth.client_secret.as_str());
    Reply::json(
        200,
        "{\"access_token\":".to_owned().concat(secret.as_str()).concat(
            ",\"expires_in\":31536000,\"refresh_token\":",
        ).concat(secret.as_str()).concat(",\"token_type\":\"Bearer\"}"),
    )
}

/// Whether a code is the one that a request is about: not expired, asked for at
/// the same address, and by who holds the verifier of its challenge.
pub open spec fn code_holds(code: AuthCode, body: TokenRequest, now: u64) -> bool {
    &&& code.expires_at >= now
    &&& text_of(body.redirect_uri) == Some(code.redirect_uri@)
    &&& match code.code_challenge {
        Some(challenge) => {
            let verifier = match body.code_verifier {
                Some(v) => v@,
                None => ""@,
            };
            base64_url(sha256(encode_utf8(verifier))) == challenge@
        },
        None => true,
    }
}

/// Whether a client is the one that is configured.
pub open spec fn is_client(oauth: OAuth, presented: (Option<Seq<char>>, Option<Seq<char>>)) -> bool {
    presented.0 == Some(oauth.client_id@) && presented.1 == Some(oauth.client_secret@)
}

/// What a request for a token is answered.
pub open spec fn token_reply(
    oauth: OAuth,
    presented: (Option<Seq<char>>, Option<Seq<char>>),
    body: TokenRequest,
    now: u64,
) -> Answer {
    if !is_client(oauth, presented) {
        oauth_refusal(401, "invalid_client"@)
    } else if body.grant_type@ == "authorization_code"@ {
        match text_of(body.code) {
            None => oauth_refusal(400, "invalid_request"@),
            Some(code) => if oauth.auth_codes@.contains_key(code) && code_holds(
                oauth.auth_codes@[code],
                body,
                now,
            ) {
                token_answer(oauth)
            } else {
                oauth_refusal(400, "invalid_grant"@)
            },
        }
    } else if body.grant_type@ == "refresh_token"@ {
        token_answer(oauth)
    } else {
        oauth_refusal(400, "unsupported_grant_type"@)
    }
}

/// The codes that are left after a request for a token: a code that the client
/// named is gone, whatever came of it.
pub open spec fn codes_left(
    oauth: OAuth,
    presented: (Option<Seq<char>>, Option<Seq<char>>),
    body: TokenRequest,
) -> Map<Seq<char>, AuthCode> {
    match text_of(body.code) {
        Some(code) => if is_client(oauth, presented) && body.grant_type@
            == "authorization_code"@ {
            oauth.auth_codes@.remove(code)
        } else {
            oauth.auth_codes@
        },
        None => oauth.auth_codes@,
    }
}

/// Whether an optional string is a text.
fn presents(s: &Option<String>, text: &str) -> (r: bool)
    ensures
        r == (text_of(*s) == Some(text@)),
{
    match s {
        Some(s) => same(s.as_str(), text),
        None => false,
    }
}

/// Answers a request for a token by the client that presented these
/// credentials.
pub fn token_for(
    oauth: &mut OAuth,
    client_id: &Option<String>,
    client_secret: &Option<String>,
    body: &TokenRequest,
    now: u64,
) -> (r: Reply)
    ensures
        r@ == token_reply(
            *old(oauth),
            (text_of(*client_id), text_of(*client_secret)),
            *body,
            now,
        ),
        final(oauth).auth_codes@ == codes_left(
            *old(oauth),
            (text_of(*client_id), text_of(*client_secret)),
            *body,
        ),
        final(oauth).client_id == old(oauth).client_id,
        final(oauth).client_secret == old(oauth).client_secret,
        final(oauth).client_domain == old(oauth).client_domain,
{
    if !presents(client_id, oauth.client_id.as_str()) || !presents(
        client_secret,
        oauth.client_secret.as_str(),
    ) {
        return oauth_error(401, "invalid_client");
    }
    if same(body.grant_type.as_str(), "authorization_code") {
        let code = match &body.code {
            Some(code) => code,
            None => {
                return oauth_error(400, "invalid_request");
            },
        };
        let entry = match oauth.auth_codes.remove(code.as_str()) {
            Some(entry) => entry,
            None => {
                return oauth_error(400, "invalid_grant");
            },
        };
        if entry.expires_at < now {
            return oauth_error(400, "invalid_grant");
        }
        if !presents(&body.redirect_uri, entry.redirect_uri.as_str()) {
            return oauth_error(400, "invalid_grant");
        }
        if let Some(challenge) = &entry.code_challenge {
            let verifier: String = match &body.code_verifier {
                Some(v) => v.clone(),
                None => "".to_owned(),
            };
            let computed = encode_url(digest(verifier.as_str().as_bytes()).as_slice());
            if !same(computed.as_str(), challenge.as_str()) {
                return oauth_error(400, "invalid_grant");
            }
        }
        return success_token(oauth);
    }
    if same(body.grant_type.as_str(), "refresh_token") {
        return success_token(oauth);
    }
    oauth_error(400, "unsupported_grant_type")
}

/// Answers a request for a token.
pub fn token_endpoint(
    oauth: &mut OAuth,
    headers: &Vec<(String, String)>,
    body: &TokenRequest,
    now: u64,
) -> (r: Reply)
    ensures
        r@ == token_reply(*old(oauth), credentials_of(headers@, *body), *body, now),
        final(oauth).auth_codes@ == codes_left(
            *old(oauth),
            credentials_of(headers@, *body),
            *body,
        ),
        final(oauth).client_id == old(oauth).client_id,
        final(oauth).client_secret == old(oauth).client_secret,
        final(oauth).client_domain == old(oauth).client_domain,
{
    let (client_id, client_secret) = client_credentials(headers, body);
    token_for(oauth, &client_id, &client_secret, body, now)
}

/// A code is good for one exchange: once a client has named it, no later request
/// gets a token for it.
pub proof fn code_works_once(
    before: OAuth,
    after: OAuth,
    presented: (Option<Seq<char>>, Option<Seq<char>>),
    body: TokenRequest,
    again: TokenRequest,
    now: u64,
)
    requires
        is_client(before, presented),
        body.grant_type@ == "authorization_code"@,
        body.code is Some,
        after.auth_codes@ == codes_left(before, presented, body),
        after.client_id == before.client_id,
        after.client_secret == before.client_secret,
        again.grant_type@ == "authorization_code"@,
        text_of(again.code) == text_of(body.code),
    ensures
        token_reply(after, presented, again, now) == oauth_refusal(400, "invalid_grant"@),
{
}

/// A code that was handed out gets its client a token while it lasts, at the
/// address it was asked for at and with the verifier of its challenge.
pub proof fn code_is_exchanged(
    after: OAuth,
    params: AuthorizeParams,
    code: Seq<char>,
    presented: (Option<Seq<char>>, Option<Seq<char>>),
    body: TokenRequest,
    handed_out: u64,
    now: u64,
)
    requires
        after.auth_codes@.contains_key(code),
        kept_code(after.auth_codes@[code], params, handed_out),
        is_client(after, presented),
        body.grant_type@ == "authorization_code"@,
        text_of(body.code) == Some(code),
        text_of(body.redirect_uri) == Some(params.redirect_uri@),
        now <= handed_out + CODE_TTL,
        params.code_challenge matches Some(challenge) ==> (body.code_verifier matches Some(v)
            && base64_url(sha256(encode_utf8(v@))) == challenge@),
    ensures
        token_reply(after, presented, body, now) == token_answer(after),
{
    let kept = after.auth_codes@[code];
    assert(text_of(kept.code_challenge) == text_of(params.code_challenge));
}

/// No code leaves for an address that is not the client's own.
pub proof fn codes_stay_with_the_client(
    client_id: Seq<char>,
    domain: Seq<char>,
    params: AuthorizeParams,
)
    requires
        !is_client_host(domain, uri_host(params.redirect_uri@)),
    ensures
        authorize_refusal(client_id, domain, params, uri_host(params.redirect_uri@)) == Some(
            plain(400, "redirect_uri not allowed"@),
        ),
{
}

} // verus!
