//! Accounts, sessions and cookies.
use toolsite::accounts::users::{
    accept, app_cookie_name, app_session_user, create_app_session, grant, has_grant, invite,
    invitee, log_in, log_in_with, log_out, normalise, reinvite, revoke, role_in, set_active,
    sign_up, sign_up_as, sign_up_with, site_session_user, valid_app_scope, Accounts, User,
    APP_SESSION_LIFETIME, INVITE_LIFETIME, SESSION_LIFETIME,
};
use toolsite::accounts::web::{
    app_token_from_cookies, clear_cookie_header, is_visitor_navigation, safe_next,
    set_app_cookie_header, set_cookie_header, token_from_cookies,
};
use toolsite::crypto::{check_password, hash_token};

const NOW: u64 = 1_000_000;
const EMAIL: &str = "someone@example.com";
const PASSWORD: &str = "correct horse battery";

fn with_account() -> Accounts {
    let mut accounts = Accounts::new();
    sign_up(&mut accounts, EMAIL, PASSWORD, NOW).unwrap();
    accounts
}

fn signed_in() -> (Accounts, String) {
    let mut accounts = with_account();
    let (_, token) = log_in(&mut accounts, EMAIL, PASSWORD, NOW).unwrap();
    (accounts, token)
}

#[test]
fn a_password_is_never_stored_in_the_clear() {
    let accounts = with_account();
    let stored = accounts.users[0].password_hash.clone().unwrap();
    assert!(!stored.contains("correct horse"));
    assert!(stored.starts_with("$argon2"), "got {stored}");
}

#[test]
fn signing_in_needs_the_right_password() {
    let mut accounts = with_account();
    assert!(log_in(&mut accounts, EMAIL, "wrong", NOW).is_err());
    let (user, token) = log_in(&mut accounts, EMAIL, PASSWORD, NOW).unwrap();
    assert_eq!(user.email, "someone@example.com");
    assert_eq!(site_session_user(&mut accounts, &token, NOW).unwrap(), user);
}

#[test]
fn a_wrong_password_and_an_unknown_account_are_indistinguishable() {
    let mut accounts = with_account();
    let wrong = log_in(&mut accounts, EMAIL, "nope", NOW).unwrap_err();
    let missing = log_in(&mut accounts, "nobody@example.com", "nope", NOW).unwrap_err();
    assert_eq!(wrong, missing, "the error tells an attacker which exists");
}

#[test]
fn a_stored_hash_that_asks_for_too_many_threads_matches_no_password() {
    let mut accounts = with_account();
    let stored = accounts.users[0].password_hash.clone().unwrap();
    assert_eq!(check_password(&stored, PASSWORD), Ok(true));
    assert_eq!(check_password(&stored, "nope"), Ok(false));
    for threads in ["536870912", "4294967295", "99999999999"] {
        let greedy = stored.replace("p=1", &format!("p={threads}"));
        assert_ne!(greedy, stored);
        assert_eq!(check_password(&greedy, PASSWORD), Ok(false));
        accounts.users[0].password_hash = Some(greedy);
        assert_eq!(
            log_in(&mut accounts, EMAIL, PASSWORD, NOW).unwrap_err(),
            "email or password is incorrect"
        );
    }
    // What is no hash is told to be none, whatever it asks for.
    let none = check_password("p=536870912", PASSWORD).unwrap_err();
    assert_eq!(check_password("not a hash", PASSWORD), Err(none.clone()));
    accounts.users[0].password_hash = Some("p=536870912".to_string());
    assert_eq!(log_in(&mut accounts, EMAIL, PASSWORD, NOW).unwrap_err(), none);
}

#[test]
fn email_case_and_spacing_do_not_create_a_second_account() {
    let mut accounts = Accounts::new();
    sign_up(&mut accounts, "Someone@Example.com", PASSWORD, NOW).unwrap();
    assert_eq!(
        sign_up(&mut accounts, "  someone@example.com ", "another password", NOW),
        Err("that email is already registered".to_string())
    );
    assert!(log_in(&mut accounts, "SOMEONE@EXAMPLE.COM", PASSWORD, NOW).is_ok());
}

#[test]
fn weak_input_is_refused() {
    let mut accounts = Accounts::new();
    assert_eq!(
        sign_up(&mut accounts, "not-an-email", PASSWORD, NOW),
        Err("that does not look like an email address".to_string())
    );
    assert_eq!(
        sign_up(&mut accounts, EMAIL, "short", NOW),
        Err("password must be at least 8 characters".to_string())
    );
    assert!(accounts.users.is_empty());
}

#[test]
fn sessions_are_stored_hashed_so_the_table_is_not_a_set_of_keys() {
    let (accounts, token) = signed_in();
    let stored = &accounts.sessions[0].token_hash;
    assert_ne!(stored, &token);
    assert_eq!(stored, &hash_token(&token));
}

#[test]
fn a_token_is_hashed_with_sha_256_in_url_safe_base64() {
    // The digest of "abc" is the published test vector.
    assert_eq!(hash_token("abc"), "ungWv48Bz-pBQUDeXa4iI7ADYaOWF3qctBD_YfIAFa0");
}

#[test]
fn logging_out_ends_the_session() {
    let (mut accounts, token) = signed_in();
    log_out(&mut accounts, &token);
    assert!(site_session_user(&mut accounts, &token, NOW).is_none());
}

#[test]
fn an_expired_session_stops_working() {
    let (mut accounts, token) = signed_in();
    accounts.sessions[0].expires_at = 1;
    assert!(site_session_user(&mut accounts, &token, NOW).is_none());
}

#[test]
fn a_session_lasts_a_fortnight_and_not_a_second_more() {
    let (mut accounts, token) = signed_in();
    assert!(site_session_user(&mut accounts, &token, NOW + SESSION_LIFETIME).is_some());
    assert!(site_session_user(&mut accounts, &token, NOW + SESSION_LIFETIME + 1).is_none());
}

#[test]
fn an_invented_token_is_worthless() {
    let mut accounts = Accounts::new();
    assert!(site_session_user(&mut accounts, "not-a-real-token", NOW).is_none());
    assert!(app_session_user(&mut accounts, "not-a-real-token", "app", NOW).is_none());
}

#[test]
fn a_site_session_is_not_an_app_session_and_the_reverse() {
    let (mut accounts, site) = signed_in();
    let (_, app, _) = create_app_session(&mut accounts, &site, "notes", NOW).unwrap();

    assert!(app_session_user(&mut accounts, &site, "notes", NOW).is_none());
    assert!(site_session_user(&mut accounts, &app, NOW).is_none());
    assert!(app_session_user(&mut accounts, &app, "notes", NOW).is_some());
}

#[test]
fn an_app_session_only_speaks_for_its_own_app() {
    let (mut accounts, site) = signed_in();
    let (_, notes, _) = create_app_session(&mut accounts, &site, "notes", NOW).unwrap();

    assert!(app_session_user(&mut accounts, &notes, "notes", NOW).is_some());
    assert!(app_session_user(&mut accounts, &notes, "invoices", NOW).is_none());
}

#[test]
fn an_app_session_cannot_mint_another_app_session() {
    let (mut accounts, site) = signed_in();
    let (_, notes, _) = create_app_session(&mut accounts, &site, "notes", NOW).unwrap();
    assert!(create_app_session(&mut accounts, &notes, "invoices", NOW).is_err());
}

#[test]
fn an_app_session_needs_a_live_site_session_and_a_real_app_name() {
    let (mut accounts, site) = signed_in();
    assert!(create_app_session(&mut accounts, "forged", "notes", NOW).is_err());
    for bad in ["../etc", "a/b", "", "with space"] {
        assert!(
            create_app_session(&mut accounts, &site, bad, NOW).is_err(),
            "minted a session scoped to {bad:?}"
        );
    }
}

#[test]
fn an_app_session_never_outlives_the_site_session() {
    let (mut accounts, site) = signed_in();

    // A site session about to expire cannot hand out a longer-lived one.
    let soon = NOW + 60;
    accounts.sessions[0].expires_at = soon;

    let (_, _, max_age) = create_app_session(&mut accounts, &site, "notes", NOW).unwrap();
    assert!(max_age <= 60, "app session outlived its site session");
    assert_eq!(max_age, 60);

    let scoped = accounts.sessions.iter().find(|s| s.scope.as_deref() == Some("notes")).unwrap();
    assert!(scoped.expires_at <= soon);
}

#[test]
fn an_app_session_lasts_a_day_where_the_site_session_does() {
    let (mut accounts, site) = signed_in();
    let (_, _, max_age) = create_app_session(&mut accounts, &site, "notes", NOW).unwrap();
    assert_eq!(max_age, APP_SESSION_LIFETIME);
    assert_eq!(max_age, 86_400);
}

#[test]
fn signing_out_takes_every_app_session_with_it() {
    let (mut accounts, site) = signed_in();
    let (_, notes, _) = create_app_session(&mut accounts, &site, "notes", NOW).unwrap();
    let (_, invoices, _) = create_app_session(&mut accounts, &site, "invoices", NOW).unwrap();

    log_out(&mut accounts, &site);
    assert!(site_session_user(&mut accounts, &site, NOW).is_none());
    assert!(app_session_user(&mut accounts, &notes, "notes", NOW).is_none());
    assert!(app_session_user(&mut accounts, &invoices, "invoices", NOW).is_none());
}

#[test]
fn signing_out_of_an_app_leaves_the_site_session_alone() {
    let (mut accounts, site) = signed_in();
    let (_, notes, _) = create_app_session(&mut accounts, &site, "notes", NOW).unwrap();
    log_out(&mut accounts, &notes);
    assert!(app_session_user(&mut accounts, &notes, "notes", NOW).is_none());
    assert!(site_session_user(&mut accounts, &site, NOW).is_some());
}

#[test]
fn grants_are_per_app() {
    let mut accounts = Accounts::new();
    let user = sign_up(&mut accounts, EMAIL, PASSWORD, NOW).unwrap();

    assert!(!has_grant(&accounts, &user, "private"));
    grant(&mut accounts, EMAIL, "private", "viewer").unwrap();
    assert!(has_grant(&accounts, &user, "private"));
    // A grant on one app says nothing about another.
    assert!(!has_grant(&accounts, &user, "other"));

    revoke(&mut accounts, EMAIL, "private");
    assert!(!has_grant(&accounts, &user, "private"));
}

#[test]
fn granting_again_changes_the_role_and_adds_nothing() {
    let mut accounts = Accounts::new();
    let user = sign_up(&mut accounts, EMAIL, PASSWORD, NOW).unwrap();
    grant(&mut accounts, EMAIL, "app", "viewer").unwrap();
    grant(&mut accounts, EMAIL, "app", "editor").unwrap();
    assert_eq!(accounts.grants.len(), 1);
    assert_eq!(role_in(&accounts, &user, "app").as_deref(), Some("editor"));
    assert_eq!(role_in(&accounts, &user, "other"), None);
}

#[test]
fn a_grant_needs_an_account_and_an_app() {
    let mut accounts = with_account();
    assert_eq!(
        grant(&mut accounts, "nobody@example.com", "app", "viewer"),
        Err("no account for nobody@example.com".to_string())
    );
    assert_eq!(
        grant(&mut accounts, EMAIL, "../etc", "viewer"),
        Err("invalid app name".to_string())
    );
    assert!(accounts.grants.is_empty());
}

#[test]
fn an_id_or_an_email_that_is_taken_is_refused() {
    let mut accounts = Accounts::new();
    let salt = vec![7u8; 16];
    let first = sign_up_with(&mut accounts, EMAIL, PASSWORD, false, "id".into(), &salt, NOW);
    assert_eq!(
        first,
        Ok(User { id: "id".into(), email: EMAIL.into(), is_admin: false })
    );
    assert!(
        sign_up_with(&mut accounts, "other@example.com", PASSWORD, true, "id".into(), &salt, NOW)
            .is_err()
    );
    assert_eq!(accounts.users.len(), 1);
}

#[test]
fn a_drawn_token_is_the_one_that_is_handed_out() {
    let mut accounts = with_account();
    let (_, token) =
        log_in_with(&mut accounts, EMAIL, PASSWORD, "drawn".into(), NOW).unwrap();
    assert_eq!(token, "drawn");
    assert!(site_session_user(&mut accounts, "drawn", NOW).is_some());
}

#[test]
fn an_admin_is_one_only_where_asked_for() {
    let mut accounts = Accounts::new();
    assert!(!sign_up(&mut accounts, "a@example.com", PASSWORD, NOW).unwrap().is_admin);
    assert!(sign_up_as(&mut accounts, "b@example.com", PASSWORD, true, NOW).unwrap().is_admin);
}

#[test]
fn disabling_ends_sessions_and_enabling_brings_back_the_password() {
    let (mut accounts, token) = signed_in();
    set_active(&mut accounts, EMAIL, false).unwrap();
    assert!(site_session_user(&mut accounts, &token, NOW).is_none());
    assert!(log_in(&mut accounts, EMAIL, PASSWORD, NOW).is_err());
    set_active(&mut accounts, EMAIL, true).unwrap();
    assert!(site_session_user(&mut accounts, &token, NOW).is_none(), "an ended session is back");
    assert!(log_in(&mut accounts, EMAIL, PASSWORD, NOW).is_ok());
    assert_eq!(
        set_active(&mut accounts, "nobody@example.com", true),
        Err("no account for nobody@example.com".to_string())
    );
}

#[test]
fn an_invitation_is_good_once_and_for_two_days() {
    let mut accounts = Accounts::new();
    let (user, token) = invite(&mut accounts, "new@example.com", false, NOW).unwrap();
    assert_eq!(invitee(&accounts, &token, NOW + INVITE_LIFETIME).unwrap(), user);
    assert!(invitee(&accounts, &token, NOW + INVITE_LIFETIME + 1).is_none());
    assert!(log_in(&mut accounts, "new@example.com", "", NOW).is_err());

    let (who, session) = accept(&mut accounts, &token, PASSWORD, NOW).unwrap();
    assert_eq!(who, user);
    assert_eq!(site_session_user(&mut accounts, &session, NOW).unwrap(), user);
    assert!(accept(&mut accounts, &token, "someone elses choice", NOW).is_err());
    assert!(log_in(&mut accounts, "new@example.com", PASSWORD, NOW).is_ok());
}

#[test]
fn a_fresh_link_replaces_the_old() {
    let mut accounts = Accounts::new();
    let (_, first) = invite(&mut accounts, "new@example.com", false, NOW).unwrap();
    let second = reinvite(&mut accounts, "new@example.com", NOW).unwrap();
    assert!(invitee(&accounts, &first, NOW).is_none());
    assert!(invitee(&accounts, &second, NOW).is_some());
    assert!(reinvite(&mut accounts, "nobody@example.com", NOW).is_err());
}

#[test]
fn an_email_is_compared_without_case_or_spaces() {
    assert_eq!(normalise("  Someone@Example.COM "), "someone@example.com");
    assert_eq!(normalise("ÄÖ@Example.com"), "äö@example.com");
}

#[test]
fn the_session_cookie_is_read_from_a_crowded_header() {
    let crowded = Some("theme=dark; ts_session=abc123; ts_app_notes=def456; other=1");
    assert_eq!(token_from_cookies(crowded).unwrap(), "abc123");
    assert_eq!(app_token_from_cookies(crowded, "notes").unwrap(), "def456");
    // A neighbour's cookie is not this app's, even in the same header.
    assert!(app_token_from_cookies(crowded, "invoices").is_none());
    assert!(token_from_cookies(Some("theme=dark")).is_none());
    assert!(token_from_cookies(None).is_none());
}

#[test]
fn the_cookie_is_not_reachable_from_script_or_plain_http() {
    for header in [set_cookie_header("abc"), set_app_cookie_header("notes", "abc", 60)] {
        assert!(header.contains("HttpOnly"), "{header}");
        assert!(header.contains("Secure"), "{header}");
        assert!(header.contains("SameSite=Lax"), "{header}");
    }
}

#[test]
fn an_apps_cookie_is_confined_to_that_apps_path() {
    let header = set_app_cookie_header("notes", "abc", 60);
    assert!(header.contains("Path=/p/notes/"), "{header}");
    assert!(header.starts_with("ts_app_notes=abc;"), "{header}");
    // The site cookie is the one thing that stays origin-wide.
    assert!(set_cookie_header("abc").contains("Path=/;"));
}

#[test]
fn cookies_are_spelled_exactly() {
    assert_eq!(
        set_cookie_header("abc"),
        "ts_session=abc; Path=/; HttpOnly; SameSite=Lax; Secure; Max-Age=1209600"
    );
    assert_eq!(
        set_app_cookie_header("notes", "abc", 60),
        "ts_app_notes=abc; Path=/p/notes/; HttpOnly; SameSite=Lax; Secure; Max-Age=60"
    );
    assert_eq!(
        clear_cookie_header(),
        "ts_session=; Path=/; HttpOnly; SameSite=Lax; Secure; Max-Age=0"
    );
    assert_eq!(app_cookie_name("notes"), "ts_app_notes");
}

#[test]
fn a_scope_must_be_one_path_segment_so_it_fits_a_cookie() {
    assert!(valid_app_scope("notes"));
    assert!(valid_app_scope("my-app_2"));
    for bad in ["", "a/b", "..", "with space", "semi;colon", ".hidden"] {
        assert!(!valid_app_scope(bad), "accepted {bad:?} as a scope");
    }
}

fn headers(pairs: &[(&str, &str)]) -> Vec<(String, String)> {
    pairs.iter().map(|(n, v)| (n.to_string(), v.to_string())).collect()
}

#[test]
fn a_background_request_is_not_a_visitor_navigating() {
    // A real navigation, and a client that sends no fetch metadata.
    assert!(is_visitor_navigation(&headers(&[
        ("sec-fetch-mode", "navigate"),
        ("sec-fetch-dest", "document"),
    ])));
    assert!(is_visitor_navigation(&headers(&[])));
    // What a script gets to send.
    assert!(!is_visitor_navigation(&headers(&[
        ("sec-fetch-mode", "cors"),
        ("sec-fetch-dest", "empty"),
    ])));
    assert!(!is_visitor_navigation(&headers(&[
        ("sec-fetch-mode", "navigate"),
        ("sec-fetch-dest", "iframe"),
    ])));
}

#[test]
fn a_next_page_stays_on_the_site() {
    assert_eq!(safe_next(Some("/p/app/")), "/p/app/");
    for hostile in ["https://evil.example.com/", "//evil.example.com/", "p/app", ""] {
        assert_eq!(safe_next(Some(hostile)), "/");
    }
    assert_eq!(safe_next(None), "/");
}
