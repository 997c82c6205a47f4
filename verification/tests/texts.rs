//! Slugs, titles, icons, texts and tables.
use toolsite::content::slug::{
    escape_html, random_slug, random_token, spell, valid_asset_path, valid_slug,
};
use toolsite::content::store::{
    icon_path, page_icon, page_path, page_title, page_url, relative_time, slug_hue, Icon,
};
use toolsite::config::Config;
use toolsite::table::Table;
use toolsite::text::{
    decimal, join, lines, lower, replace_text, same_ignoring_case, sort, split_on, split_once,
    strip_both, trim, words,
};
use toolsite::ui::page;

#[test]
fn a_slug_stays_inside_the_site() {
    for good in ["a", "my-app_2", "app/page", "a/b/c"] {
        assert!(valid_slug(good), "{good}");
    }
    for bad in ["", "/a", "a/", "a//b", "..", "a/../b", ".hidden", "a b", "ä"] {
        assert!(!valid_slug(bad), "{bad}");
    }
    assert!(valid_asset_path("assets/main-4f2a.js"));
    assert!(!valid_asset_path("assets/.env"));
    assert!(!valid_asset_path("../x"));
}

#[test]
fn what_is_drawn_is_a_slug() {
    assert_eq!(spell(&vec![0, 25, 26, 35]), "az09");
    assert_eq!(random_token(40).len(), 40);
    assert!(valid_slug(&random_slug()));
    assert_ne!(random_token(40), random_token(40));
}

#[test]
fn markup_is_escaped() {
    assert_eq!(escape_html("<a href=\"x\">&"), "&lt;a href=&quot;x&quot;&gt;&amp;");
    assert_eq!(escape_html("plain"), "plain");
    assert!(page("<t>", "<p>body</p>", None).contains("<title>&lt;t&gt;"));
}

#[test]
fn a_title_is_read_from_the_head() {
    let title = |html: &str| page_title(html.as_bytes());
    assert_eq!(title("<!doctype html><TITLE lang=en> A page </Title>").as_deref(), Some("A page"));
    assert_eq!(title("<p>none"), None);
    assert_eq!(title("<title>   </title>"), None);
    // A character that grows in lower case does not move the title.
    assert_eq!(title("\u{130}<title>Hi</title>").as_deref(), Some("Hi"));
    assert_eq!(title("\u{130}\u{130}<Title>é</TITLE>").as_deref(), Some("é"));
    assert_eq!(page_title(b"\xff<title>Hi</title>").as_deref(), Some("Hi"));
}

#[test]
fn an_icon_is_a_text_a_source_or_generated() {
    assert!(matches!(page_icon("app", Some("📋".as_bytes())), Icon::Text(t) if t == "📋"));
    assert!(matches!(
        page_icon("app", Some(b"data:image/png;base64,AA==")),
        Icon::Src(s) if s.starts_with("data:")
    ));
    let Icon::Generated(letters, hue) = page_icon("app", None) else { panic!("not generated") };
    assert_eq!((letters.as_str(), hue), ("AP", slug_hue("app")));
    // The FNV-1a hash of nothing is its basis.
    assert_eq!(slug_hue(""), (2_166_136_261u32 % 360) as u16);
    assert_ne!(slug_hue("app"), slug_hue("other"));
}

#[test]
fn times_are_coarse() {
    for (seconds, said) in [
        (0, "just now"),
        (59, "just now"),
        (60, "1m ago"),
        (3_599, "59m ago"),
        (7_200, "2h ago"),
        (86_400 * 29, "29d ago"),
        (86_400 * 61, "2mo ago"),
    ] {
        assert_eq!(relative_time(1_000, 1_000 + seconds), said);
    }
    assert_eq!(relative_time(2_000, 1_000), "just now");
}

#[test]
fn a_page_has_one_file_and_one_url() {
    let mut config = Config::local("/data".to_string(), "t", true);
    assert_eq!(page_path(&config, "a", true, true).as_deref(), Some("/data/a.html"));
    assert_eq!(page_path(&config, "a", false, true).as_deref(), Some("/data/a/index.html"));
    assert_eq!(page_path(&config, "a", false, false), None);
    assert_eq!(icon_path(&config, "a", true, true).as_deref(), Some("/data/a.icon"));
    assert_eq!(icon_path(&config, "a", false, true).as_deref(), Some("/data/a/index.icon"));
    assert_eq!(icon_path(&config, "a", false, false), None);
    assert_eq!(page_url(&config, "a"), "/p/a");
    config.base_url = Some("https://pages.example".to_string());
    assert_eq!(page_url(&config, "a"), "https://pages.example/p/a");
}

#[test]
fn texts_are_cut_as_expected() {
    assert_eq!(lines("a\r\nb\n\nc"), ["a", "b", "", "c"]);
    assert_eq!(words("  a \t b\nc "), ["a", "b", "c"]);
    assert_eq!(split_on("a.b.", '.'), ["a", "b", ""]);
    assert_eq!(split_once("k=v=w", '='), Some(("k".to_string(), "v=w".to_string())));
    assert_eq!(split_once("kv", '='), None);
    assert_eq!(trim("\u{a0} x \n"), "x");
    assert_eq!(strip_both("'\"x\"'", "'\""), "x");
    assert_eq!(replace_text("NAMENAME NAM", "NAME", "x"), "xx NAM");
    assert_eq!(join(&vec!["a".into(), "b".into()], ", "), "a, b");
    assert_eq!(lower("ÀBC"), "Àbc");
    assert!(same_ignoring_case("BeaRer", "bearer"));
    assert_eq!(decimal(u64::MAX), "18446744073709551615");
    assert_eq!(sort(vec!["b".into(), "B".into(), "a".into()]), ["B", "a", "b"]);
}

#[test]
fn a_table_holds_one_value_by_a_name() {
    let mut table = Table::new();
    assert_eq!(table.insert("b".to_string(), 1), None);
    assert_eq!(table.insert("a".to_string(), 2), None);
    assert_eq!(table.insert("b".to_string(), 3), Some(1));
    assert_eq!(table.len(), 2);
    assert_eq!(table.get("b"), Some(&3));
    assert_eq!(table.names(), ["a", "b"]);
    assert_eq!(table.remove("a"), Some(2));
    assert!(!table.contains("a"));
    assert_eq!(table.remove("a"), None);
}
