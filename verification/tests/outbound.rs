//! What an app may fetch, and what no app may.
use toolsite::runtime::outbound::{
    allowed, bad_method, check, check_addresses, fetched, is_internal, outgoing, Ip, Lookup,
    Refusal, MAX_RESPONSE_BYTES, USER_AGENT,
};

fn allow(hosts: &[&str]) -> Vec<String> {
    hosts.iter().map(|h| h.to_string()).collect()
}

/// Checks a URL and, where its host is a name, the address it resolves to.
fn check_resolved(url: &str, allow: &Vec<String>, resolved: Ip) -> Result<(), Refusal> {
    match check(url, allow)? {
        Some(lookup) => check_addresses(&lookup.host, Some(&vec![resolved])),
        None => Ok(()),
    }
}

#[test]
fn nothing_is_reachable_without_an_allowlist() {
    assert_eq!(
        check("https://example.com/", &vec![]),
        Err(Refusal::NotAllowed("example.com".into()))
    );
}

#[test]
fn a_wildcard_covers_subdomains_and_not_the_bare_name() {
    let wildcard = allow(&["*.example.com"]);
    assert!(allowed("api.example.com", &wildcard));
    assert!(allowed("API.Example.com", &wildcard), "matching is case-blind");
    assert!(!allowed("example.com", &wildcard), "a wildcard is not the bare name");
    assert!(
        !allowed("notexample.com", &wildcard),
        "a name that merely ends the same way is a different name"
    );
    assert!(allowed("example.com", &allow(&["example.com"])));
}

#[test]
fn the_networks_this_server_lives_in_are_refused_even_when_allowed() {
    // The point: naming a host does not make its address acceptable.
    for url in [
        "http://127.0.0.1/",
        "http://localhost/",
        "http://169.254.169.254/latest/meta-data/",
        "http://10.0.0.5/",
        "http://192.168.1.1/",
        "http://172.16.0.1/",
        "http://100.64.0.1/",
        "http://[::1]/",
        "http://[fd00::1]/",
    ] {
        let host = reqwest::Url::parse(url).unwrap().host_str().unwrap().to_string();
        let refusal =
            check_resolved(url, &allow(&[&host, "localhost"]), Ip::V4(127, 0, 0, 1)).unwrap_err();
        assert!(
            matches!(refusal, Refusal::Internal(_)),
            "{url} was not refused as internal: {refusal:?}"
        );
    }
}

#[test]
fn only_http_urls_are_fetched() {
    let allow = allow(&["example.com"]);
    for url in ["file:///etc/passwd", "gopher://example.com/", "data:text/plain,hello"] {
        assert!(matches!(check(url, &allow), Err(Refusal::BadUrl(_))), "{url} was not refused");
    }
}

#[test]
fn an_ipv4_address_hidden_in_ipv6_is_still_internal() {
    // ::ffff:169.254.169.254 is the metadata endpoint by another spelling, and
    // the URL parser writes it as [::ffff:a9fe:a9fe].
    let refusal =
        check("http://[::ffff:169.254.169.254]/", &allow(&["[::ffff:a9fe:a9fe]"])).unwrap_err();
    assert!(matches!(refusal, Refusal::Internal(_)), "got {refusal:?}");
}

#[test]
fn a_name_is_checked_before_it_is_looked_up() {
    assert_eq!(
        check("https://whatever.invalid/", &vec![]),
        Err(Refusal::NotAllowed("whatever.invalid".into()))
    );
}

#[test]
fn an_allowed_name_is_to_be_looked_up_at_its_port() {
    let allow = allow(&["example.com", "*.internal.test"]);
    assert_eq!(
        check("https://EXAMPLE.com/path?q=1", &allow),
        Ok(Some(Lookup { host: "example.com".into(), port: 443 }))
    );
    assert_eq!(
        check("http://a.internal.test:8081/", &allow),
        Ok(Some(Lookup { host: "a.internal.test".into(), port: 8081 }))
    );
    assert_eq!(check("http://8.8.8.8/", &vec!["8.8.8.8".to_string()]), Ok(None));
}

#[test]
fn every_address_of_a_name_must_be_outside() {
    let outside = Ip::V4(93, 184, 216, 34);
    assert_eq!(check_addresses("h", Some(&vec![outside])), Ok(()));
    assert!(matches!(
        check_addresses("h", Some(&vec![outside, Ip::V4(10, 0, 0, 1)])),
        Err(Refusal::Internal(_))
    ));
    assert!(check_addresses("h", None).is_err());
}

#[test]
fn addresses_are_internal_or_not() {
    for ip in [
        Ip::V4(0, 0, 0, 0),
        Ip::V4(127, 1, 2, 3),
        Ip::V4(172, 31, 255, 255),
        Ip::V4(100, 127, 0, 1),
        Ip::V4(255, 255, 255, 255),
        Ip::V6(0, 0, 0, 0, 0, 0, 0, 1),
        Ip::V6(0xfe80, 0, 0, 0, 0, 0, 0, 1),
        Ip::V6(0, 0, 0, 0, 0, 0xffff, 0x0a00, 0x0001),
    ] {
        assert!(is_internal(&ip), "{ip:?}");
    }
    for ip in [
        Ip::V4(172, 32, 0, 1),
        Ip::V4(100, 128, 0, 1),
        Ip::V4(1, 1, 1, 1),
        Ip::V6(0x2606, 0x4700, 0, 0, 0, 0, 0, 0x1111),
    ] {
        assert!(!is_internal(&ip), "{ip:?}");
    }
}

#[test]
fn a_refusal_says_which_host() {
    let said = Refusal::NotAllowed("example.com".into()).message();
    assert!(said.contains("example.com"), "{said}");
    let said = Refusal::Internal("10.0.0.5".into()).message();
    assert!(said.contains("10.0.0.5"), "{said}");
    let said = Refusal::BadUrl("nonsense".into()).message();
    assert!(said.contains("nonsense"), "{said}");
}

#[test]
fn the_caller_cannot_choose_hop_by_hop_headers() {
    let sent = outgoing(&vec![
        ("Host".to_string(), "evil.example".to_string()),
        ("content-length".to_string(), "3".to_string()),
        ("X-Api-Key".to_string(), "k".to_string()),
    ]);
    assert_eq!(
        sent,
        [
            ("user-agent".to_string(), USER_AGENT.to_string()),
            ("X-Api-Key".to_string(), "k".to_string()),
        ]
    );
    let named = vec![("User-Agent".to_string(), "mine".to_string())];
    assert_eq!(outgoing(&named), named);
}

#[test]
fn a_reply_is_kept_only_up_to_the_cap() {
    let kept = fetched(200, vec![("a".into(), "b".into())], vec![0u8; MAX_RESPONSE_BYTES]);
    assert_eq!(kept.map(|f| (f.status, f.body.len())).ok(), Some((200, MAX_RESPONSE_BYTES)));
    assert!(fetched(200, vec![], vec![0u8; MAX_RESPONSE_BYTES + 1]).is_err());
    assert!(bad_method("FETCH ME").contains("FETCH ME"));
}
