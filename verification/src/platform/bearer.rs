//! Who may call the tools: whoever presents a token that is configured.
use crate::accounts::web::{header_from, header_value};
use crate::config::Config;
use crate::reply::{bare, with_header, Answer, Reply};
use crate::text::{find, lowered, same, same_ignoring_case, split_once, texts, trim, trimmed};
use vstd::prelude::*;

verus! {

/// The token that headers present.
pub open spec fn token_presented(headers: Seq<(String, String)>) -> Option<Seq<char>> {
    let key = match header_from(headers, "x-api-key"@, 0) {
        Some(value) => Some(trimmed(value)),
        None => None,
    };
    match header_from(headers, "authorization"@, 0) {
        Some(value) => if value.contains(' ') && lowered(value.take(find(value, ' '))) == lowered(
            "bearer"@,
        ) {
            Some(trimmed(value.skip(find(value, ' ') + 1)))
        } else {
            key
        },
        None => key,
    }
}

/// Clients disagree about how to present a static token: most send
/// `Authorization: Bearer <token>`, some send `x-api-key`. Accept either —
/// it's the same secret.
pub fn presented_token(headers: &Vec<(String, String)>) -> (r: Option<String>)
    ensures
        match r {
            Some(t) => token_presented(headers@) == Some(t@),
            None => token_presented(headers@) is None,
        },
{
    if let Some(value) = header_value(headers, "authorization") {
        if let Some((scheme, token)) = split_once(value, ' ') {
            if same_ignoring_case(scheme.as_str(), "bearer") {
                return Some(trim(token.as_str()));
            }
        }
    }
    match header_value(headers, "x-api-key") {
        Some(value) => Some(trim(value)),
        None => None,
    }
}

/// Whether headers present a token that is configured.
pub open spec fn is_authorized(config: Config, headers: Seq<(String, String)>) -> bool {
    match token_presented(headers) {
        Some(token) => texts(config.valid_tokens@).contains(token),
        None => false,
    }
}

/// Whether headers present a token that is configured.
pub fn authorized(config: &Config, headers: &Vec<(String, String)>) -> (r: bool)
    ensures
        r == is_authorized(*config, headers@),
{
    let token = match presented_token(headers) {
        Some(token) => token,
        None => {
            return false;
        },
    };
    let ghost all = texts(config.valid_tokens@);
    let mut i: usize = 0;
    while i < config.valid_tokens.len()
        invariant
            i <= config.valid_tokens.len(),
            all == texts(config.valid_tokens@),
            token_presented(headers@) == Some(token@),
            forall|j: int| 0 <= j < i ==> #[trigger] all[j] != token@,
        decreases config.valid_tokens.len() - i,
    {
        if same(config.valid_tokens[i].as_str(), token.as_str()) {
            assert(all[i as int] == token@);
            return true;
        }
        i += 1;
    }
    false
}

/// What a client without a token is answered: OAuth-capable ones are pointed at
/// the metadata rather than left to guess.
pub open spec fn turned_away(config: Config) -> Answer {
    match (config.base_url, config.oauth) {
        (Some(base), Some(_)) => with_header(
            bare(401),
            "www-authenticate"@,
            "Bearer resource_metadata=\""@ + base@ + "/.well-known/oauth-protected-resource\""@,
        ),
        _ => bare(401),
    }
}

/// Lets a request through, or says what it is answered instead.
pub fn require_bearer(config: &Config, headers: &Vec<(String, String)>) -> (r: Option<Reply>)
    ensures
        match r {
            Some(reply) => !is_authorized(*config, headers@) && reply@ == turned_away(*config),
            None => is_authorized(*config, headers@),
        },
{
    if authorized(config, headers) {
        return None;
    }
    let reply = Reply::bare(401);
    if let Some(base) = &config.base_url {
        if config.oauth.is_some() {
            let value = "Bearer resource_metadata=\"".to_owned().concat(base.as_str()).concat(
                "/.well-known/oauth-protected-resource\"",
            );
            return Some(reply.with("www-authenticate", value.as_str()));
        }
    }
    Some(reply)
}

} // verus!
