use kazane_game_launcher::text::{
    eq_ignore_ascii_case, split_once, str_contains, strip_prefix, trim, trim_end_matches,
    trim_start_matches,
};

#[test]
fn trimming() {
    assert_eq!(trim("\u{3000} hello\t\n"), "hello");
    assert_eq!(trim("   "), "");
    assert_eq!(trim_end_matches("a///", '/'), "a");
    assert_eq!(trim_start_matches("//a/b", '/'), "a/b");
}

#[test]
fn searching_and_splitting() {
    assert!(str_contains("sample-game", "le-g"));
    assert!(str_contains("abc", ""));
    assert!(!str_contains("ab", "abc"));
    assert_eq!(strip_prefix("https://github.com/o", "https://github.com/"), Some("o".to_string()));
    assert_eq!(strip_prefix("x", "xy"), None);
    assert_eq!(split_once("o/r/s", '/'), Some(("o".to_string(), "r/s".to_string())));
    assert_eq!(split_once("or", '/'), None);
    assert!(eq_ignore_ascii_case("ExE", "eXe"));
    assert!(!eq_ignore_ascii_case("exe", "ex"));
}
