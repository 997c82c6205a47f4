//! How an instance is set up.
use crate::platform::client_oauth::{text_of, OAuth};
use crate::platform::upload::UploadTicket;
use crate::table::Table;
use crate::text::{
    contains_str, holds, lower, lowered, pairs, same, strip_both, strip_end, stripped,
    stripped_end, texts, trim, trimmed,
};
use axum::http::Uri;
use vstd::prelude::*;

verus! {

/// The settings of an instance, and the upload tickets it has handed out.
pub struct Config {
    pub data_dir: String,
    pub base_url: Option<String>,
    /// Stand-in for `base_url` when it isn't configured, so upload URLs handed
    /// to an agent are still something it can actually curl.
    pub local_base: String,
    pub valid_tokens: Vec<String>,
    pub oauth: Option<OAuth>,
    /// Per-app SQLite.
    pub databases: bool,
    pub uploads: Table<UploadTicket>,
}

impl Config {
    /// A bearer-only instance backed by `data_dir`, without OAuth.
    pub fn local(data_dir: String, token: &str, databases: bool) -> (r: Self)
        ensures
            r.data_dir == data_dir,
            r.base_url is None,
            r.local_base@ == "http://localhost:8080"@,
            r.valid_tokens.len() == 1,
            r.valid_tokens@[0]@ == token@,
            r.oauth is None,
            r.databases == databases,
            r.uploads@ == Map::<Seq<char>, UploadTicket>::empty(),
    {
        let mut valid_tokens: Vec<String> = Vec::new();
        valid_tokens.push(token.to_owned());
        Config {
            data_dir,
            base_url: None,
            local_base: "http://localhost:8080".to_owned(),
            valid_tokens,
            oauth: None,
            databases,
            uploads: Table::new(),
        }
    }

    /// The base of the URLs that agents are handed.
    pub open spec fn public_base(self) -> Seq<char> {
        match self.base_url {
            Some(base) => base@,
            None => self.local_base@,
        }
    }

    /// What stands before `/p/` in the URL of a page: nothing where no base is
    /// configured.
    pub open spec fn page_base(self) -> Seq<char> {
        match self.base_url {
            Some(base) => base@,
            None => Seq::empty(),
        }
    }
}

/// The value of the first of some names that is set to anything.
pub open spec fn first_set(env: Seq<(Seq<char>, Seq<char>)>, names: Seq<Seq<char>>) -> Option<
    Seq<char>,
>
    decreases names.len(),
{
    if names.len() == 0 {
        None
    } else {
        match first_set(env, names.drop_last()) {
            Some(value) => Some(value),
            None => match value_in(env, names.last()) {
                Some(value) => if value.len() == 0 {
                    None
                } else {
                    Some(value)
                },
                None => None,
            },
        }
    }
}

/// The value that a name has, where it is set.
pub open spec fn value_in(env: Seq<(Seq<char>, Seq<char>)>, name: Seq<char>) -> Option<Seq<char>>
    decreases env.len(),
{
    if env.len() == 0 {
        None
    } else if env.last().0 == name {
        Some(env.last().1)
    } else {
        value_in(env.drop_last(), name)
    }
}

/// The value that a name has, where it is set to anything.
fn set_to(env: &Vec<(String, String)>, name: &str) -> (r: Option<String>)
    ensures
        match (r, value_in(pairs(env@), name@)) {
            (Some(a), Some(b)) => a@ == b && b.len() > 0,
            (None, Some(b)) => b.len() == 0,
            (None, None) => true,
            _ => false,
        },
{
    let ghost all = pairs(env@);
    let mut i: usize = env.len();
    proof {
        assert(all.take(all.len() as int) =~= all);
    }
    while i > 0
        invariant
            i <= env.len(),
            all == pairs(env@),
            value_in(all, name@) == value_in(all.take(i as int), name@),
        decreases i,
    {
        i -= 1;
        proof {
            assert(all.take(i + 1).drop_last() =~= all.take(i as int));
            assert(all.take(i + 1).last() == (env@[i as int].0@, env@[i as int].1@));
        }
        if same(env[i].0.as_str(), name) {
            return if env[i].1.as_str().is_empty() {
                None
            } else {
                Some(env[i].1.clone())
            };
        }
    }
    None
}

/// The value of the first of two names that is set to anything.
fn either(env: &Vec<(String, String)>, name: &str, old_name: &str) -> (r: Option<String>)
    ensures
        text_of(r) == first_set(pairs(env@), seq![name@, old_name@]),
{
    let ghost e = pairs(env@);
    proof {
        reveal_with_fuel(first_set, 3);
        assert(seq![name@, old_name@].drop_last() =~= seq![name@]);
        assert(seq![name@].drop_last() =~= Seq::<Seq<char>>::empty());
    }
    match set_to(env, name) {
        Some(value) => Some(value),
        None => set_to(env, old_name),
    }
}

/// The static token, under any of the names it answers to.
pub open spec fn token_set(env: Seq<(Seq<char>, Seq<char>)>) -> Option<Seq<char>> {
    first_set(env, seq!["TOOLSITE_TOKEN"@, "BEARER_TOKEN"@, "MCP_TOKEN"@])
}

/// The id and the secret of an OAuth client.
pub open spec fn client_set(env: Seq<(Seq<char>, Seq<char>)>) -> (
    Option<Seq<char>>,
    Option<Seq<char>>,
) {
    (
        first_set(env, seq!["TOOLSITE_OAUTH_CLIENT_ID"@, "OAUTH_CLIENT_ID"@]),
        first_set(env, seq!["TOOLSITE_OAUTH_CLIENT_SECRET"@, "OAUTH_CLIENT_SECRET"@]),
    )
}

/// The domain of the OAuth client: where none is set, no address belongs to it.
pub open spec fn domain_set(env: Seq<(Seq<char>, Seq<char>)>) -> Seq<char> {
    match first_set(env, seq!["TOOLSITE_OAUTH_CLIENT_DOMAIN"@, "OAUTH_CLIENT_DOMAIN"@]) {
        Some(domain) => domain,
        None => Seq::empty(),
    }
}

/// A base URL as it is used: without stray quotes and trailing slashes, and with
/// a scheme. A bare host is the natural thing to paste in, but every URL built
/// from this needs a scheme to be usable.
pub open spec fn base_of(value: Seq<char>) -> Option<Seq<char>> {
    let plain = stripped_end(stripped(trimmed(value), "\"'"@), "/"@);
    if plain.len() == 0 {
        None
    } else if holds(plain, "://"@) {
        Some(plain)
    } else {
        Some("https://"@ + plain)
    }
}

/// The base URL that is configured.
pub open spec fn base_set(env: Seq<(Seq<char>, Seq<char>)>) -> Option<Seq<char>> {
    match first_set(env, seq!["TOOLSITE_BASE_URL"@, "PUBLIC_BASE_URL"@]) {
        Some(value) => base_of(value),
        None => None,
    }
}

/// Whether a switch is on.
pub open spec fn is_on(value: Option<Seq<char>>) -> bool {
    match value {
        Some(v) => {
            let v = lowered(trimmed(v));
            v == "1"@ || v == "on"@ || v == "true"@ || v == "yes"@
        },
        None => false,
    }
}

/// The port that is configured.
pub open spec fn port_set(env: Seq<(Seq<char>, Seq<char>)>) -> Seq<char> {
    match value_in(env, "PORT"@) {
        Some(port) => if port.len() > 0 {
            port
        } else {
            "8080"@
        },
        None => "8080"@,
    }
}

/// Why an instance is not started. Without a token or a client nobody could
/// publish, unless the client owns the process and speaks to it directly.
pub open spec fn start_refusal(env: Seq<(Seq<char>, Seq<char>)>, direct: bool) -> Option<Seq<char>> {
    let client = client_set(env);
    if client.0 is Some != client.1 is Some {
        Some("set both OAUTH_CLIENT_ID and OAUTH_CLIENT_SECRET together, or neither"@)
    } else if token_set(env) is None && client.0 is None && !direct {
        Some("set BEARER_TOKEN, or OAUTH_CLIENT_ID + OAUTH_CLIENT_SECRET (or both)"@)
    } else if client.0 is Some && base_set(env) is None {
        Some(
            "PUBLIC_BASE_URL is required when OAUTH_CLIENT_ID/OAUTH_CLIENT_SECRET are set (OAuth discovery metadata needs absolute URLs)"@,
        )
    } else {
        None
    }
}

/// Whether an instance is set up as its environment says.
pub open spec fn is_configured(env: Seq<(Seq<char>, Seq<char>)>, config: Config) -> bool {
    let client = client_set(env);
    &&& config.data_dir@ == match first_set(env, seq!["TOOLSITE_DATA_DIR"@, "DATA_DIR"@]) {
        Some(dir) => dir,
        None => "/data"@,
    }
    &&& text_of(config.base_url) == base_set(env)
    &&& config.local_base@ == "http://localhost:"@ + port_set(env)
    &&& texts(config.valid_tokens@) == match token_set(env) {
        Some(token) => seq![token],
        None => Seq::<Seq<char>>::empty(),
    } + match client.1 {
        Some(secret) => seq![secret],
        None => Seq::<Seq<char>>::empty(),
    }
    &&& match (client.0, client.1) {
        (Some(id), Some(secret)) => {
            &&& config.oauth matches Some(oauth)
            &&& oauth.client_id@ == id
            &&& oauth.client_secret@ == secret
            &&& oauth.client_domain@ == domain_set(env)
            &&& oauth.auth_codes@ == Map::<Seq<char>, crate::platform::client_oauth::AuthCode>::empty()
        },
        _ => config.oauth is None,
    }
    &&& config.databases == is_on(first_set(env, seq!["TOOLSITE_DATABASES"@, "DATABASES"@]))
    &&& config.uploads@ == Map::<Seq<char>, UploadTicket>::empty()
}

/// A base URL as it is used.
fn clean_base(value: &str) -> (r: Option<String>)
    ensures
        text_of(r) == base_of(value@),
{
    let plain = strip_end(strip_both(trim(value).as_str(), "\"'").as_str(), "/");
    if plain.as_str().is_empty() {
        None
    } else if contains_str(plain.as_str(), "://") {
        Some(plain)
    } else {
        Some("https://".to_owned().concat(plain.as_str()))
    }
}

/// Sets an instance up as its environment says, or says why it cannot be
/// started. `direct` says that a client owns the process and speaks to it
/// directly.
pub fn configure(env: &Vec<(String, String)>, direct: bool) -> (r: Result<Config, String>)
    ensures
        match r {
            Ok(config) => start_refusal(pairs(env@), direct) is None && is_configured(
                pairs(env@),
                config,
            ),
            Err(m) => start_refusal(pairs(env@), direct) == Some(m@),
        },
{
    let ghost e = pairs(env@);
    let token: Option<String> = match either(env, "TOOLSITE_TOKEN", "BEARER_TOKEN") {
        Some(t) => Some(t),
        None => set_to(env, "MCP_TOKEN"),
    };
    proof {
        let names = seq!["TOOLSITE_TOKEN"@, "BEARER_TOKEN"@, "MCP_TOKEN"@];
        assert(names.drop_last() =~= seq!["TOOLSITE_TOKEN"@, "BEARER_TOKEN"@]);
        assert(text_of(token) == token_set(e));
    }
    let client_id = either(env, "TOOLSITE_OAUTH_CLIENT_ID", "OAUTH_CLIENT_ID");
    let client_secret = either(env, "TOOLSITE_OAUTH_CLIENT_SECRET", "OAUTH_CLIENT_SECRET");
    if client_id.is_some() != client_secret.is_some() {
        return Err(
            "set both OAUTH_CLIENT_ID and OAUTH_CLIENT_SECRET together, or neither".to_owned(),
        );
    }
    if token.is_none() && client_id.is_none() && !direct {
        return Err(
            "set BEARER_TOKEN, or OAUTH_CLIENT_ID + OAUTH_CLIENT_SECRET (or both)".to_owned(),
        );
    }
    let base_url: Option<String> = match either(env, "TOOLSITE_BASE_URL", "PUBLIC_BASE_URL") {
        Some(value) => clean_base(value.as_str()),
        None => None,
    };
    if client_id.is_some() && base_url.is_none() {
        return Err(
            "PUBLIC_BASE_URL is required when OAUTH_CLIENT_ID/OAUTH_CLIENT_SECRET are set (OAuth discovery metadata needs absolute URLs)".to_owned(),
        );
    }
    let mut valid_tokens: Vec<String> = Vec::new();
    if let Some(t) = &token {
        valid_tokens.push(t.clone());
    }
    if let Some(secret) = &client_secret {
        valid_tokens.push(secret.clone());
    }
    proof {
        assert(texts(valid_tokens@) =~= match token_set(e) {
            Some(token) => seq![token],
            None => Seq::<Seq<char>>::empty(),
        } + match client_set(e).1 {
            Some(secret) => seq![secret],
            None => Seq::<Seq<char>>::empty(),
        });
    }
    let client_domain: String = match either(
        env,
        "TOOLSITE_OAUTH_CLIENT_DOMAIN",
        "OAUTH_CLIENT_DOMAIN",
    ) {
        Some(domain) => domain,
        None => String::new(),
    };
    let oauth: Option<OAuth> = match (client_id, client_secret) {
        (Some(client_id), Some(client_secret)) => Some(
            OAuth { client_id, client_secret, client_domain, auth_codes: Table::new() },
        ),
        _ => None,
    };
    let databases: bool = match either(env, "TOOLSITE_DATABASES", "DATABASES") {
        Some(v) => {
            let v = lower(trim(v.as_str()).as_str());
            same(v.as_str(), "1") || same(v.as_str(), "on") || same(v.as_str(), "true") || same(
                v.as_str(),
                "yes",
            )
        },
        None => false,
    };
    let data_dir: String = match either(env, "TOOLSITE_DATA_DIR", "DATA_DIR") {
        Some(dir) => dir,
        None => "/data".to_owned(),
    };
    Ok(
        Config {
            data_dir,
            base_url,
            local_base: "http://localhost:".to_owned().concat(port(env).as_str()),
            valid_tokens,
            oauth,
            databases,
            uploads: Table::new(),
        },
    )
}

/// The port to listen on.
pub fn port(env: &Vec<(String, String)>) -> (r: String)
    ensures
        r@ == port_set(pairs(env@)),
{
    match set_to(env, "PORT") {
        Some(port) => port,
        None => "8080".to_owned(),
    }
}

/// The host and port that a URL names, if it is one and names any.
pub uninterp spec fn uri_authority(uri: Seq<char>) -> Option<Seq<char>>;

/// `axum::http::Uri`'s `from_str` and `authority`: the host and port that the
/// text names as a URI, a function of the text.
#[verifier::external_body]
fn authority_of(uri: &str) -> (r: Option<String>)
    ensures
        text_of(r) == uri_authority(uri@),
{
    uri.parse::<Uri>().ok().and_then(|u| u.authority().map(|a| a.as_str().to_string()))
}

/// The hosts that a client may call this server by, where a public one is
/// configured: that one and the ways of saying this machine.
pub open spec fn hosts_with(authority: Option<Seq<char>>) -> Option<Seq<Seq<char>>> {
    match authority {
        Some(a) => Some(seq![a, "localhost"@, "127.0.0.1"@, "::1"@]),
        None => None,
    }
}

/// The hosts that a client may call this server by. Without a public one any
/// will do.
///
/// The transport validates the inbound `Host` header against a list that
/// defaults to this machine only. Deployed behind a real domain, that must hold
/// the public host or every request is refused before auth even runs.
pub fn hosts_for(authority: Option<String>) -> (r: Option<Vec<String>>)
    ensures
        match (r, hosts_with(text_of(authority))) {
            (Some(a), Some(b)) => texts(a@) == b,
            (None, None) => true,
            _ => false,
        },
{
    let authority = match authority {
        Some(a) => a,
        None => {
            return None;
        },
    };
    let ghost a = authority@;
    let mut hosts: Vec<String> = Vec::new();
    hosts.push(authority);
    hosts.push("localhost".to_owned());
    hosts.push("127.0.0.1".to_owned());
    hosts.push("::1".to_owned());
    assert(texts(hosts@) =~= seq![a, "localhost"@, "127.0.0.1"@, "::1"@]);
    Some(hosts)
}

/// The hosts that a client may call an instance by.
pub fn allowed_hosts(config: &Config) -> (r: Option<Vec<String>>)
    ensures
        match (
            r,
            hosts_with(
                match config.base_url {
                    Some(base) => uri_authority(base@),
                    None => None,
                },
            ),
        ) {
            (Some(a), Some(b)) => texts(a@) == b,
            (None, None) => true,
            _ => false,
        },
{
    match &config.base_url {
        Some(base) => hosts_for(authority_of(base.as_str())),
        None => None,
    }
}

/// The OAuth client of an instance that has one.
pub open spec fn client_of(config: Config) -> OAuth
    recommends
        config.oauth is Some,
{
    config.oauth->0
}

/// What an OAuth client presents as its token is accepted as one.
pub proof fn client_secret_is_a_token(env: Seq<(Seq<char>, Seq<char>)>, config: Config)
    requires
        is_configured(env, config),
        start_refusal(env, false) is None,
        config.oauth is Some,
    ensures
        texts(config.valid_tokens@).contains(client_of(config).client_secret@),
        config.base_url is Some,
{
    let all = texts(config.valid_tokens@);
    assert(all[all.len() - 1] == client_of(config).client_secret@);
}

} // verus!
