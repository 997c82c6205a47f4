//! Who may call the tools, and how an instance is set up.
use toolsite::config::{allowed_hosts, configure, hosts_for, port, Config};
use toolsite::platform::bearer::{authorized, presented_token, require_bearer};
use toolsite::platform::client_oauth::{
    authorize, authorize_with, client_credentials, oauth_authorization_server_metadata,
    oauth_protected_resource_metadata, redirect_uri_allowed, token_endpoint, AuthorizeParams,
    OAuth, TokenRequest, CODE_TTL,
};
use toolsite::table::Table;

const TOKEN: &str = "test-token";
const NOW: u64 = 1_000_000;

fn config() -> Config {
    Config::local("/data".to_string(), TOKEN, true)
}

fn header(name: &str, value: &str) -> Vec<(String, String)> {
    vec![(name.to_string(), value.to_string())]
}

#[test]
fn mcp_requires_a_token() {
    let refused = require_bearer(&config(), &vec![]).unwrap();
    assert_eq!(refused.status, 401);
    let refused = require_bearer(&config(), &header("authorization", "Bearer nope")).unwrap();
    assert_eq!(refused.status, 401);
    // Without OAuth there is nothing to point a client at.
    assert!(refused.headers.is_empty());
}

#[test]
fn both_bearer_and_x_api_key_are_accepted() {
    for (name, value) in [
        ("authorization", format!("Bearer {TOKEN}")),
        ("authorization", format!("bearer {TOKEN}")),
        ("x-api-key", TOKEN.to_string()),
    ] {
        let headers = header(name, &value);
        assert!(require_bearer(&config(), &headers).is_none(), "{name}: {value} was rejected");
        assert!(authorized(&config(), &headers));
        assert_eq!(presented_token(&headers).as_deref(), Some(TOKEN));
    }
    assert_eq!(presented_token(&header("authorization", "Basic abc")), None);
}

fn oauth() -> OAuth {
    OAuth {
        client_id: "client".to_string(),
        client_secret: "hush".to_string(),
        client_domain: "client.example".to_string(),
        auth_codes: Table::new(),
    }
}

#[test]
fn an_oauth_client_is_pointed_at_the_metadata() {
    let mut config = config();
    config.base_url = Some("https://pages.example".to_string());
    config.oauth = Some(oauth());
    let refused = require_bearer(&config, &vec![]).unwrap();
    assert_eq!(
        refused.headers,
        header(
            "www-authenticate",
            "Bearer resource_metadata=\"https://pages.example/.well-known/oauth-protected-resource\""
        )
    );
}

#[test]
fn codes_are_sent_to_the_clients_own_hosts_only() {
    let domain = "client.example";
    assert!(redirect_uri_allowed(domain, "https://client.example/callback"));
    assert!(redirect_uri_allowed(domain, "https://api.client.example:8443/callback"));
    for uri in [
        "https://notclient.example/callback",
        "https://client.example.evil.test/callback",
        "https://evil.test/client.example",
        "/callback",
        "not a uri",
        "",
    ] {
        assert!(!redirect_uri_allowed(domain, uri), "{uri} was allowed");
    }
    // Where no domain is set, nothing is.
    assert!(!redirect_uri_allowed("", "https://client.example./callback"));
}

fn params() -> AuthorizeParams {
    AuthorizeParams {
        response_type: "code".to_string(),
        client_id: "client".to_string(),
        redirect_uri: "https://client.example/callback".to_string(),
        state: Some("a b".to_string()),
        // The challenge of the verifier "abc", by the method S256.
        code_challenge: Some("ungWv48Bz-pBQUDeXa4iI7ADYaOWF3qctBD_YfIAFa0".to_string()),
        code_challenge_method: Some("S256".to_string()),
    }
}

fn request(code: &str, verifier: &str) -> TokenRequest {
    TokenRequest {
        grant_type: "authorization_code".to_string(),
        code: Some(code.to_string()),
        redirect_uri: Some("https://client.example/callback".to_string()),
        client_id: Some("client".to_string()),
        client_secret: Some("hush".to_string()),
        code_verifier: Some(verifier.to_string()),
    }
}

fn location(reply: &toolsite::reply::Reply) -> &str {
    &reply.headers.iter().find(|(n, _)| n == "location").unwrap().1
}

#[test]
fn a_code_is_exchanged_once() {
    let mut oauth = oauth();
    let host = Some("client.example".to_string());
    let reply = authorize_with(&mut oauth, &params(), &host, "drawn".to_string(), NOW);
    assert_eq!(reply.status, 303);
    assert_eq!(location(&reply), "https://client.example/callback?code=drawn&state=a%20b");

    let reply = token_endpoint(&mut oauth, &vec![], &request("drawn", "abc"), NOW);
    assert_eq!(reply.status, 200);
    assert!(reply.body.contains("\"access_token\":\"hush\""), "{}", reply.body);
    let again = token_endpoint(&mut oauth, &vec![], &request("drawn", "abc"), NOW);
    assert_eq!(again.status, 400);
    assert!(again.body.contains("invalid_grant"));
}

#[test]
fn a_code_needs_its_verifier_its_address_and_to_be_in_time() {
    let exchange = |change: fn(&mut TokenRequest), at: u64| {
        let mut oauth = oauth();
        authorize(&mut oauth, &params(), NOW);
        let code = oauth.auth_codes.names().remove(0);
        let mut body = request(&code, "abc");
        change(&mut body);
        token_endpoint(&mut oauth, &vec![], &body, at)
    };
    assert_eq!(exchange(|_| {}, NOW + CODE_TTL).status, 200);
    assert_eq!(exchange(|_| {}, NOW + CODE_TTL + 1).status, 400);
    assert_eq!(exchange(|b| b.code_verifier = Some("abd".into()), NOW).status, 400);
    assert_eq!(exchange(|b| b.code_verifier = None, NOW).status, 400);
    assert_eq!(exchange(|b| b.redirect_uri = None, NOW).status, 400);
    let wrong = exchange(|b| b.client_secret = Some("loud".into()), NOW);
    assert_eq!(wrong.status, 401);
    assert!(wrong.body.contains("invalid_client"));
    let missing = exchange(|b| b.code = None, NOW);
    assert!(missing.body.contains("invalid_request"));
    let odd = exchange(|b| b.grant_type = "password".into(), NOW);
    assert!(odd.body.contains("unsupported_grant_type"));
    assert_eq!(exchange(|b| b.grant_type = "refresh_token".into(), NOW).status, 200);
}

#[test]
fn no_code_is_handed_out_to_a_stranger() {
    let mut oauth = oauth();
    let elsewhere =
        AuthorizeParams { redirect_uri: "https://evil.test/".to_string(), ..params() };
    assert_eq!(authorize(&mut oauth, &elsewhere, NOW).status, 400);
    let unknown = AuthorizeParams { client_id: "other".to_string(), state: None, ..params() };
    let reply = authorize(&mut oauth, &unknown, NOW);
    assert_eq!(location(&reply), "https://client.example/callback?error=invalid_request");
    assert_eq!(oauth.auth_codes.len(), 0);
}

#[test]
fn credentials_come_from_the_header_or_the_body() {
    // "client:hush" in base64.
    let headers = header("authorization", "Basic Y2xpZW50Omh1c2g=");
    let body = TokenRequest { client_id: None, client_secret: None, ..request("c", "v") };
    assert_eq!(
        client_credentials(&headers, &body),
        (Some("client".to_string()), Some("hush".to_string()))
    );
    assert_eq!(client_credentials(&vec![], &body), (None, None));
}

#[test]
fn the_metadata_names_absolute_urls() {
    assert_eq!(
        oauth_protected_resource_metadata("https://pages.example").body,
        "{\"authorization_servers\":[\"https://pages.example\"],\
         \"resource\":\"https://pages.example/mcp\"}"
    );
    let server = oauth_authorization_server_metadata("https://pages.example").body;
    assert!(server.contains("\"token_endpoint\":\"https://pages.example/token\""));
}

fn env(pairs: &[(&str, &str)]) -> Vec<(String, String)> {
    pairs.iter().map(|(n, v)| (n.to_string(), v.to_string())).collect()
}

#[test]
fn the_environment_sets_an_instance_up() {
    let config = configure(
        &env(&[
            ("BEARER_TOKEN", "old"),
            ("TOOLSITE_TOKEN", "new"),
            ("PUBLIC_BASE_URL", " 'pages.example/' "),
            ("OAUTH_CLIENT_ID", "client"),
            ("OAUTH_CLIENT_SECRET", "hush"),
            ("OAUTH_CLIENT_DOMAIN", "client.example"),
            ("TOOLSITE_DATABASES", "On"),
            ("PORT", "9090"),
        ]),
        false,
    )
    .ok()
    .unwrap();
    assert_eq!(config.data_dir, "/data");
    assert_eq!(config.base_url.as_deref(), Some("https://pages.example"));
    assert_eq!(config.local_base, "http://localhost:9090");
    assert_eq!(config.valid_tokens, ["new", "hush"]);
    let oauth = config.oauth.as_ref().unwrap();
    assert_eq!((oauth.client_id.as_str(), oauth.client_domain.as_str()), ("client", "client.example"));
    assert!(config.databases);
    assert_eq!(
        allowed_hosts(&config).unwrap(),
        ["pages.example", "localhost", "127.0.0.1", "::1"]
    );
    assert_eq!(port(&env(&[])), "8080");
    assert_eq!(hosts_for(None), None);
}

#[test]
fn an_instance_nobody_could_publish_to_is_not_started() {
    let refused = |pairs: &[(&str, &str)], direct: bool| configure(&env(pairs), direct).err();
    assert!(refused(&[], false).unwrap().contains("BEARER_TOKEN"));
    assert!(refused(&[], true).is_none());
    assert!(refused(&[("OAUTH_CLIENT_ID", "x")], false).unwrap().contains("together"));
    let both = [("OAUTH_CLIENT_ID", "x"), ("OAUTH_CLIENT_SECRET", "y")];
    assert!(refused(&both, false).unwrap().contains("PUBLIC_BASE_URL is required"));
}
