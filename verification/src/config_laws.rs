//! What holds of how an instance is set up: each law is about what a function is
//! handed and what it gives back.
use crate::config::{
    allowed_hosts, configure, first_set, hosts_for, port, uri_authority, value_in, Config,
};
use crate::text::{
    at, contains_str, holds, lowered, pairs, stripped, stripped_end, stripped_start, texts, trimmed,
};
use crate::text_laws::is_tight;
use vstd::prelude::*;

verus! {

/// Whether a name is set to a value: to anything, and to nothing else afterwards.
pub open spec fn sets(env: Vec<(String, String)>, name: Seq<char>, value: Seq<char>) -> bool {
    value.len() > 0 && exists|i: int|
        #![trigger env@[i]]
        0 <= i < env.len() && env@[i].0@ == name && env@[i].1@ == value && last_named(env, name, i)
}

/// Whether no variable behind the `i`-th has a name.
pub open spec fn last_named(env: Vec<(String, String)>, name: Seq<char>, i: int) -> bool {
    forall|j: int| i < j < env.len() ==> (#[trigger] env@[j]).0@ != name
}

/// Whether a name is not set.
pub open spec fn leaves(env: Vec<(String, String)>, name: Seq<char>) -> bool {
    forall|j: int| 0 <= j < env.len() ==> (#[trigger] env@[j]).0@ != name
}

proof fn lemma_value(env: Seq<(Seq<char>, Seq<char>)>, name: Seq<char>, i: int)
    requires
        -1 <= i < env.len(),
        i >= 0 ==> env[i].0 == name,
        forall|j: int| i < j < env.len() ==> (#[trigger] env[j]).0 != name,
    ensures
        i >= 0 ==> value_in(env, name) == Some(env[i].1),
        i < 0 ==> value_in(env, name) is None,
    decreases env.len(),
{
    if env.len() > 0 && i < env.len() - 1 {
        let less = env.drop_last();
        assert(env[env.len() - 1].0 != name);
        assert(forall|j: int| 0 <= j < less.len() ==> less[j] == env[j]);
        lemma_value(less, name, i);
    }
}

/// What a name that is set, or is not, comes to.
proof fn lemma_sets(env: Vec<(String, String)>, name: Seq<char>, value: Seq<char>)
    ensures
        sets(env, name, value) ==> value_in(pairs(env@), name) == Some(value),
        leaves(env, name) ==> value_in(pairs(env@), name) is None,
{
    let e = pairs(env@);
    assert(e.len() == env.len());
    assert(forall|j: int| 0 <= j < env.len() ==> #[trigger] e[j] == (env@[j].0@, env@[j].1@));
    if sets(env, name, value) {
        let i = choose|i: int|
            #![trigger env@[i]]
            0 <= i < env.len() && env@[i].0@ == name && env@[i].1@ == value && last_named(
                env,
                name,
                i,
            );
        assert(e[i] == (name, value));
        assert forall|j: int| i < j < e.len() implies (#[trigger] e[j]).0 != name by {
            assert(env@[j].0@ != name);
        }
        lemma_value(e, name, i);
    }
    if leaves(env, name) {
        assert forall|j: int| -1 < j < e.len() implies (#[trigger] e[j]).0 != name by {
            assert(env@[j].0@ != name);
        }
        lemma_value(e, name, -1);
    }
}

/// What the first of two names that is set comes to.
proof fn lemma_either(
    env: Vec<(String, String)>,
    name: Seq<char>,
    older: Seq<char>,
    value: Seq<char>,
)
    ensures
        sets(env, name, value) ==> first_set(pairs(env@), seq![name, older]) == Some(value),
        leaves(env, name) && sets(env, older, value) ==> first_set(
            pairs(env@),
            seq![name, older],
        ) == Some(value),
        leaves(env, name) && leaves(env, older) ==> first_set(
            pairs(env@),
            seq![name, older],
        ) is None,
{
    lemma_sets(env, name, value);
    lemma_sets(env, older, value);
    reveal_with_fuel(first_set, 3);
    assert(seq![name, older].drop_last() =~= seq![name]);
    assert(seq![name].drop_last() =~= Seq::<Seq<char>>::empty());
}

/// A value that is asked for by two names is the one of the newer name where that is
/// set, and of the older where only that is; it has a default where neither is.
pub proof fn the_newer_name_counts(
    env: Vec<(String, String)>,
    direct: bool,
    value: Seq<char>,
    c: Config,
)
    requires
        call_ensures(configure, (&env, direct), Ok::<Config, String>(c)),
    ensures
        sets(env, "TOOLSITE_DATA_DIR"@, value) ==> c.data_dir@ == value,
        leaves(env, "TOOLSITE_DATA_DIR"@) && sets(env, "DATA_DIR"@, value) ==> c.data_dir@ == value,
        leaves(env, "TOOLSITE_DATA_DIR"@) && leaves(env, "DATA_DIR"@) ==> c.data_dir@ == "/data"@,
        sets(env, "TOOLSITE_OAUTH_CLIENT_ID"@, value) ==> (c.oauth matches Some(o) && o.client_id@
            == value),
        leaves(env, "TOOLSITE_OAUTH_CLIENT_ID"@) && sets(env, "OAUTH_CLIENT_ID"@, value) ==> (
        c.oauth matches Some(o) && o.client_id@ == value),
        leaves(env, "TOOLSITE_OAUTH_CLIENT_ID"@) && leaves(env, "OAUTH_CLIENT_ID"@) ==> c.oauth
            is None,
        sets(env, "TOOLSITE_OAUTH_CLIENT_SECRET"@, value) ==> (c.oauth matches Some(o)
            && o.client_secret@ == value),
        leaves(env, "TOOLSITE_OAUTH_CLIENT_SECRET"@) && sets(env, "OAUTH_CLIENT_SECRET"@, value)
            ==> (c.oauth matches Some(o) && o.client_secret@ == value),
        c.oauth matches Some(o) ==> sets(env, "TOOLSITE_OAUTH_CLIENT_DOMAIN"@, value)
            ==> o.client_domain@ == value,
        c.oauth matches Some(o) ==> leaves(env, "TOOLSITE_OAUTH_CLIENT_DOMAIN"@) && sets(
            env,
            "OAUTH_CLIENT_DOMAIN"@,
            value,
        ) ==> o.client_domain@ == value,
        c.oauth matches Some(o) ==> leaves(env, "TOOLSITE_OAUTH_CLIENT_DOMAIN"@) && leaves(
            env,
            "OAUTH_CLIENT_DOMAIN"@,
        ) ==> o.client_domain@.len() == 0,
{
    lemma_either(env, "TOOLSITE_DATA_DIR"@, "DATA_DIR"@, value);
    lemma_either(env, "TOOLSITE_OAUTH_CLIENT_ID"@, "OAUTH_CLIENT_ID"@, value);
    lemma_either(env, "TOOLSITE_OAUTH_CLIENT_SECRET"@, "OAUTH_CLIENT_SECRET"@, value);
    lemma_either(env, "TOOLSITE_OAUTH_CLIENT_DOMAIN"@, "OAUTH_CLIENT_DOMAIN"@, value);
}

/// Calls are let through with the token that is set, by the first of its names, and
/// with the secret of the OAuth client; with nothing else.
pub proof fn which_tokens_are_accepted(
    env: Vec<(String, String)>,
    direct: bool,
    token: Seq<char>,
    c: Config,
)
    requires
        call_ensures(configure, (&env, direct), Ok::<Config, String>(c)),
    ensures
        sets(env, "TOOLSITE_TOKEN"@, token) ==> c.valid_tokens.len() > 0 && c.valid_tokens@[0]@
            == token,
        leaves(env, "TOOLSITE_TOKEN"@) && sets(env, "BEARER_TOKEN"@, token)
            ==> c.valid_tokens.len() > 0 && c.valid_tokens@[0]@ == token,
        leaves(env, "TOOLSITE_TOKEN"@) && leaves(env, "BEARER_TOKEN"@) && sets(
            env,
            "MCP_TOKEN"@,
            token,
        ) ==> c.valid_tokens.len() > 0 && c.valid_tokens@[0]@ == token,
        leaves(env, "TOOLSITE_TOKEN"@) && leaves(env, "BEARER_TOKEN"@) && leaves(env, "MCP_TOKEN"@)
            ==> c.valid_tokens.len() == if c.oauth is Some {
            1int
        } else {
            0
        },
        c.oauth matches Some(o) ==> c.valid_tokens.len() > 0 && c.valid_tokens@.last()@
            == o.client_secret@,
        c.valid_tokens.len() <= if c.oauth is Some {
            2int
        } else {
            1
        },
        c.uploads@ == Map::<Seq<char>, crate::platform::upload::UploadTicket>::empty(),
{
    let all = texts(c.valid_tokens@);
    assert(all.len() == c.valid_tokens.len());
    assert(forall|i: int| 0 <= i < all.len() ==> #[trigger] all[i] == c.valid_tokens@[i]@);
    let names = seq!["TOOLSITE_TOKEN"@, "BEARER_TOKEN"@, "MCP_TOKEN"@];
    assert(names.drop_last() =~= seq!["TOOLSITE_TOKEN"@, "BEARER_TOKEN"@]);
    lemma_either(env, "TOOLSITE_TOKEN"@, "BEARER_TOKEN"@, token);
    lemma_sets(env, "MCP_TOKEN"@, token);
    if all.len() > 0 {
        assert(all[0] == c.valid_tokens@[0]@);
        assert(all[all.len() - 1] == c.valid_tokens@.last()@);
    }
}

/// An instance that nobody could publish to is not started, unless its client speaks
/// to it directly; nor is one with half a client, or with a client and no public URL.
pub proof fn who_cannot_be_served_is_told(
    env: Vec<(String, String)>,
    direct: bool,
    value: Seq<char>,
    r: Result<Config, String>,
)
    requires
        call_ensures(configure, (&env, direct), r),
        leaves(env, "OAUTH_CLIENT_ID"@),
        leaves(env, "OAUTH_CLIENT_SECRET"@),
        leaves(env, "PUBLIC_BASE_URL"@),
        leaves(env, "BEARER_TOKEN"@),
        leaves(env, "MCP_TOKEN"@),
    ensures
        sets(env, "TOOLSITE_OAUTH_CLIENT_ID"@, value) && leaves(env, "TOOLSITE_OAUTH_CLIENT_SECRET"@)
            ==> r is Err,
        leaves(env, "TOOLSITE_OAUTH_CLIENT_ID"@) && sets(
            env,
            "TOOLSITE_OAUTH_CLIENT_SECRET"@,
            value,
        ) ==> r is Err,
        sets(env, "TOOLSITE_OAUTH_CLIENT_ID"@, value) && leaves(env, "TOOLSITE_BASE_URL"@) ==> r
            is Err,
        leaves(env, "TOOLSITE_OAUTH_CLIENT_ID"@) && leaves(env, "TOOLSITE_OAUTH_CLIENT_SECRET"@)
            && leaves(env, "TOOLSITE_TOKEN"@) ==> r is Ok == direct,
        leaves(env, "TOOLSITE_OAUTH_CLIENT_ID"@) && leaves(env, "TOOLSITE_OAUTH_CLIENT_SECRET"@)
            && sets(env, "TOOLSITE_TOKEN"@, value) ==> r is Ok,
{
    let names = seq!["TOOLSITE_TOKEN"@, "BEARER_TOKEN"@, "MCP_TOKEN"@];
    assert(names.drop_last() =~= seq!["TOOLSITE_TOKEN"@, "BEARER_TOKEN"@]);
    lemma_either(env, "TOOLSITE_TOKEN"@, "BEARER_TOKEN"@, value);
    lemma_sets(env, "MCP_TOKEN"@, value);
    lemma_either(env, "TOOLSITE_BASE_URL"@, "PUBLIC_BASE_URL"@, value);
    lemma_either(env, "TOOLSITE_OAUTH_CLIENT_ID"@, "OAUTH_CLIENT_ID"@, value);
    lemma_either(env, "TOOLSITE_OAUTH_CLIENT_SECRET"@, "OAUTH_CLIENT_SECRET"@, value);
}

/// A public URL is used without the blanks, the quotes and the slashes around it; a
/// bare host is given a scheme, and one that has a scheme keeps it.
pub proof fn a_public_url_has_a_scheme(
    env: Vec<(String, String)>,
    direct: bool,
    host: &str,
    value: Seq<char>,
    schemed: bool,
    c: Config,
)
    requires
        call_ensures(configure, (&env, direct), Ok::<Config, String>(c)),
        is_tight(host@),
        host@[0] != '"' && host@[0] != '\'',
        host@.last() != '"' && host@.last() != '\'' && host@.last() != '/',
        sets(env, "TOOLSITE_BASE_URL"@, value) || (leaves(env, "TOOLSITE_BASE_URL"@) && sets(
            env,
            "PUBLIC_BASE_URL"@,
            value,
        )),
        value == host@ || value == host@ + "/"@ || value == "\""@ + host@ + "\""@,
        call_ensures(contains_str, (host, "://"), schemed),
    ensures
        c.base_url matches Some(b) && b@ == if schemed {
            host@
        } else {
            "https://"@ + host@
        },
{
    reveal_strlit("\"'");
    reveal_strlit("\"");
    reveal_strlit("/");
    let h = host@;
    let quotes = "\"'"@;
    lemma_either(env, "TOOLSITE_BASE_URL"@, "PUBLIC_BASE_URL"@, value);
    assert(trimmed(value) == value);
    assert(quotes =~= seq!['"', '\'']);
    assert("/"@ =~= seq!['/']);
    assert(quotes[0] == '"');
    reveal_with_fuel(stripped_start, 2);
    reveal_with_fuel(stripped_end, 2);
    assert(!quotes.contains(h[0]));
    assert(!quotes.contains(h.last()));
    assert(!"/"@.contains(h.last()));
    assert("/"@[0] == '/');
    if value == h + "/"@ {
        assert(value[0] == h[0]);
        assert(value.last() == '/');
        assert(!quotes.contains('/'));
        assert(stripped(value, quotes) == value);
        assert(value.drop_last() =~= h);
        assert(stripped_end(value, "/"@) == h);
    } else if value == "\""@ + h + "\""@ {
        assert(value[0] == '"');
        assert(quotes.contains(value[0]));
        assert(value.skip(1) =~= h + "\""@);
        assert((h + "\""@)[0] == h[0]);
        assert((h + "\""@).last() == '"');
        assert(quotes.contains((h + "\""@).last()));
        assert((h + "\""@).drop_last() =~= h);
        assert(stripped(value, quotes) == h);
        assert(stripped_end(h, "/"@) == h);
    } else {
        assert(stripped(value, quotes) == value);
        assert(stripped_end(value, "/"@) == h);
    }
    assert(holds(h, "://"@) == schemed);
}

/// Without a public URL there is none; agents are then handed URLs of this machine,
/// at the port that is set.
pub proof fn without_a_public_url_there_is_this_machine(
    env: Vec<(String, String)>,
    direct: bool,
    value: Seq<char>,
    p: String,
    c: Config,
)
    requires
        call_ensures(port, (&env,), p),
        call_ensures(configure, (&env, direct), Ok::<Config, String>(c)),
    ensures
        leaves(env, "TOOLSITE_BASE_URL"@) && leaves(env, "PUBLIC_BASE_URL"@) ==> c.base_url is None,
        c.local_base@ == "http://localhost:"@ + p@,
        sets(env, "PORT"@, value) ==> p@ == value,
        leaves(env, "PORT"@) ==> p@ == "8080"@,
{
    lemma_either(env, "TOOLSITE_BASE_URL"@, "PUBLIC_BASE_URL"@, value);
    lemma_sets(env, "PORT"@, value);
}

/// Databases are there where they are switched on, by one of the words for it, and
/// not otherwise.
pub proof fn databases_are_switched_on(
    env: Vec<(String, String)>,
    direct: bool,
    value: Seq<char>,
    c: Config,
)
    requires
        call_ensures(configure, (&env, direct), Ok::<Config, String>(c)),
    ensures
        leaves(env, "TOOLSITE_DATABASES"@) && leaves(env, "DATABASES"@) ==> !c.databases,
        sets(env, "TOOLSITE_DATABASES"@, value) || (leaves(env, "TOOLSITE_DATABASES"@) && sets(
            env,
            "DATABASES"@,
            value,
        )) ==> c.databases == {
            let word = lowered(trimmed(value));
            word == "1"@ || word == "on"@ || word == "true"@ || word == "yes"@
        },
{
    lemma_either(env, "TOOLSITE_DATABASES"@, "DATABASES"@, value);
}

/// Where a public host is configured, calls are taken for it and for this machine;
/// otherwise for any.
pub proof fn calls_are_taken_for_the_public_host(
    authority: Option<String>,
    r: Option<Vec<String>>,
)
    requires
        call_ensures(hosts_for, (authority,), r),
    ensures
        r is Some == authority is Some,
        r matches Some(hosts) ==> hosts.len() == 4 && hosts@[0]@ == authority->0@ && hosts@[1]@
            == "localhost"@ && hosts@[2]@ == "127.0.0.1"@ && hosts@[3]@ == "::1"@,
{
    if let Some(hosts) = r {
        let all = texts(hosts@);
        assert(all.len() == hosts.len());
        assert(all[0] == hosts@[0]@ && all[1] == hosts@[1]@ && all[2] == hosts@[2]@ && all[3]
            == hosts@[3]@);
    }
}

/// An instance is called by the host of its public URL; without one, by any.
pub proof fn an_instance_is_called_by_its_own_host(
    config: Config,
    authority: Option<String>,
    own: Option<Vec<String>>,
    r: Option<Vec<String>>,
)
    requires
        config.base_url matches Some(base) ==> match uri_authority(base@) {
            Some(a) => authority matches Some(b) && b@ == a,
            None => authority is None,
        },
        config.base_url is None ==> authority is None,
        call_ensures(hosts_for, (authority,), own),
        call_ensures(allowed_hosts, (&config,), r),
    ensures
        r is Some == own is Some,
        r matches Some(hosts) ==> texts(hosts@) == texts(own->0@),
        config.base_url is None ==> r is None,
{
}

} // verus!
