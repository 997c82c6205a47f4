//! An app's settings: sealed, listed by name, handed to a person to enter.
use toolsite::config::Config;
use toolsite::platform::secrets::{
    self, create_entry, create_entry_with, entry_app, entry_form, entry_form_query,
    entry_submit, fresh_key, get, key,
    key_path, names, open, parse_pasted, save_pasted, seal, seal_with, settings_path, EntryToken,
    PastedSettings, ENTRY_TTL,
};
use toolsite::table::Table;

fn config() -> Config {
    Config::local("/data".to_string(), "test-token", true)
}

#[test]
fn a_setting_round_trips_and_can_be_replaced() {
    let (mut app, k) = (Table::new(), fresh_key());
    secrets::set(&mut app, "app", &k, "API_KEY", Some("first")).unwrap();
    assert_eq!(get(&app, &k, "API_KEY").as_deref(), Some("first"));
    secrets::set(&mut app, "app", &k, "API_KEY", Some("second")).unwrap();
    assert_eq!(get(&app, &k, "API_KEY").as_deref(), Some("second"));
}

#[test]
fn listing_gives_names_and_never_values() {
    let (mut app, k) = (Table::new(), fresh_key());
    secrets::set(&mut app, "app", &k, "API_KEY", Some("hunter2")).unwrap();
    secrets::set(&mut app, "app", &k, "ENDPOINT", Some("https://example.com")).unwrap();

    let listed = names(&app);
    assert_eq!(listed, ["API_KEY", "ENDPOINT"]);
    assert!(!format!("{listed:?}").contains("hunter2"), "a value came back from a listing");
}

#[test]
fn one_app_cannot_see_anothers() {
    assert_eq!(settings_path(&config(), "mine").unwrap(), "/data/mine.secrets");
    assert_ne!(settings_path(&config(), "mine"), settings_path(&config(), "theirs"));

    let (mut mine, theirs, k) = (Table::new(), Table::new(), fresh_key());
    secrets::set(&mut mine, "mine", &k, "API_KEY", Some("hunter2")).unwrap();
    assert!(get(&theirs, &k, "API_KEY").is_none());
    assert!(names(&theirs).is_empty());
}

#[test]
fn removing_says_so_when_there_was_nothing_there() {
    let (mut app, k) = (Table::new(), fresh_key());
    secrets::set(&mut app, "app", &k, "API_KEY", Some("hunter2")).unwrap();
    secrets::set(&mut app, "app", &k, "API_KEY", None).unwrap();
    assert!(get(&app, &k, "API_KEY").is_none());
    assert!(secrets::set(&mut app, "app", &k, "API_KEY", None).is_err());
}

#[test]
fn a_value_is_not_readable_from_the_file_it_is_stored_in() {
    let (mut app, k) = (Table::new(), fresh_key());
    secrets::set(&mut app, "app", &k, "API_KEY", Some("hunter2")).unwrap();
    let (name, stored) = app.row(0);
    assert_eq!(name, "API_KEY", "names are not secret, values are");
    assert!(!stored.contains("hunter2"), "the value was stored in the clear");
    assert_eq!(get(&app, &k, "API_KEY").as_deref(), Some("hunter2"));
}

#[test]
fn the_same_value_stored_twice_does_not_look_the_same() {
    let k = fresh_key();
    let (first, second) = (seal(&k, "same").unwrap(), seal(&k, "same").unwrap());
    assert_ne!(first, second, "identical values produced identical ciphertext");
    assert_eq!(open(&k, &first), open(&k, &second));
}

#[test]
fn a_name_that_could_leave_the_data_directory_is_refused() {
    let (mut app, k) = (Table::new(), fresh_key());
    assert!(settings_path(&config(), "../etc").is_none());
    assert!(secrets::set(&mut app, "../etc", &k, "API_KEY", Some("x")).is_err());
    assert!(secrets::set(&mut app, "app", &k, "../../escape", Some("x")).is_err());
    assert!(secrets::set(&mut app, "app", &k, "has space", Some("x")).is_err());
    assert_eq!(app.len(), 0);
}

#[test]
fn a_sealed_value_opens_only_as_it_was_sealed() {
    let k = vec![1u8; 32];
    let nonce = vec![2u8; 24];
    let sealed = seal_with(&k, &nonce, "hunter2").unwrap();
    // The nonce leads, so the same one shows as the same start.
    assert_eq!(sealed, seal_with(&k, &nonce, "hunter2").unwrap());
    assert!(sealed.starts_with("AgICAgICAgICAgICAgICAgICAgICAgIC"), "got {sealed}");
    assert_eq!(open(&k, &sealed).as_deref(), Some("hunter2"));
    assert_eq!(open(&vec![3u8; 32], &sealed), None);
    assert_eq!(open(&k, "not base64!"), None);
    assert_eq!(open(&k, "AgIC"), None);
}

#[test]
fn the_key_is_configured_or_kept_and_32_bytes_long() {
    assert_eq!(key_path(&config()), "/data/.site/secret.key");
    let encoded = "AQEBAQEBAQEBAQEBAQEBAQEBAQEBAQEBAQEBAQEBAQE=";
    assert_eq!(key(Some(encoded), None), Ok(Some(vec![1u8; 32])));
    assert!(key(Some("AQEB"), None).is_err());
    assert!(key(Some("not base64!"), None).is_err());
    assert_eq!(key(None, Some(&[9u8; 32])), Ok(Some(vec![9u8; 32])));
    assert_eq!(key(None, None), Ok(None));
    assert_eq!(fresh_key().len(), 32);
    assert_ne!(fresh_key(), fresh_key());
}

#[test]
fn a_link_to_enter_settings_is_good_for_an_hour() {
    let mut config = config();
    let url = create_entry_with(&mut config, "app", "drawn".to_string(), 1_000).unwrap();
    assert_eq!(url, "http://localhost:8080/settings/drawn");
    assert_eq!(
        entry_app(&mut config.uploads, 1_000 + ENTRY_TTL - 1, "drawn").as_deref(),
        Some("app")
    );
    assert_eq!(entry_app(&mut config.uploads, 1_000 + ENTRY_TTL, "drawn"), None);
    assert_eq!(
        create_entry(&mut config, "../etc", 1_000),
        Err("invalid app name".to_string())
    );
}

#[test]
fn the_form_lists_names_and_saves_what_is_pasted() {
    let (mut app, k) = (Table::new(), fresh_key());
    let form = PastedSettings { token: "tok".into(), pasted: "API_KEY=hunter2".into() };
    let saved = entry_submit(&mut app, &k, Some("app"), &form);
    assert_eq!(saved.status, 303);
    assert!(saved.headers.contains(&("location".to_string(), "/settings/tok".to_string())));
    assert_eq!(get(&app, &k, "API_KEY").as_deref(), Some("hunter2"));

    let shown = entry_form(Some("app"), &names(&app), "tok");
    assert_eq!(shown.status, 200);
    assert!(shown.body.contains("API_KEY"));
    assert!(!shown.body.contains("hunter2"));

    let nothing = PastedSettings { token: "tok".into(), pasted: "nothing here".into() };
    assert_eq!(entry_submit(&mut app, &k, Some("app"), &nothing).status, 400);
    assert_eq!(entry_submit(&mut app, &k, None, &form).status, 410);
    assert_eq!(entry_form(None, &names(&app), "tok").status, 410);
    let by_query = EntryToken { token: "tok".to_string() };
    let asked = entry_form_query(Some("app"), &names(&app), &by_query);
    assert_eq!(asked.body, shown.body);
    assert_eq!(entry_form_query(None, &names(&app), &by_query).status, 410);
}

#[test]
fn saving_stops_at_the_first_name_that_is_refused() {
    let (mut app, k) = (Table::new(), fresh_key());
    let given = vec![
        ("GOOD".to_string(), "1".to_string()),
        ("has space".to_string(), "2".to_string()),
        ("LATER".to_string(), "3".to_string()),
    ];
    assert!(save_pasted(&mut app, "app", &k, &given).is_err());
    assert_eq!(names(&app), ["GOOD"]);
    assert_eq!(save_pasted(&mut app, "app", &k, &vec![given[2].clone()]), Ok(1));
}

#[test]
fn a_dotenv_file_can_be_pasted_whole() {
    let pasted = "# comment\n\nexport API_KEY=\"hunter2\"\nENDPOINT = https://example.com \n\
                  QUOTED='single'\nnot a setting\nEMPTY=\n";
    assert_eq!(
        parse_pasted(pasted),
        vec![
            ("API_KEY".to_string(), "hunter2".to_string()),
            ("ENDPOINT".to_string(), "https://example.com".to_string()),
            ("QUOTED".to_string(), "single".to_string()),
        ]
    );
}

#[test]
fn a_value_containing_an_equals_sign_survives() {
    assert_eq!(
        parse_pasted("TOKEN=abc=def=="),
        vec![("TOKEN".to_string(), "abc=def==".to_string())]
    );
}
