use mflash_studio::find::{find_next, find_previous, toggle_find, toggle_replace};
use mflash_studio::input::{parse_shortcut, shortcut_bindings, split_parts, Key, ShortcutAction};
use mflash_studio::config::ShortcutsConfig;
use mflash_studio::search::{
    replace_all_in_schema, replace_all_text, replace_current_match,
    find_ranges, literal_find_ranges, replace_all_case_insensitive_ascii, update_find_matches,
};
use mflash_studio::studio::{MFlashStudioApp, Workspace};

fn app_with_text(text: &str) -> MFlashStudioApp {
    MFlashStudioApp::new(String::new(), None, text.to_string())
}

#[test]
fn literal_ranges_are_byte_ranges() {
    let r = literal_find_ranges("Abc abc ABC", "abc", false);
    assert_eq!(r, vec![0..3, 4..7, 8..11]);
    let r = literal_find_ranges("Abc abc ABC", "abc", true);
    assert_eq!(r, vec![4..7]);
    let r = literal_find_ranges("héllo hé", "hé", true);
    assert_eq!(r, vec![0..3, 7..10]);
    let r = literal_find_ranges("aaaa", "aa", true);
    assert_eq!(r, vec![0..2, 2..4]);
}

#[test]
fn regex_ranges_come_from_the_regex_crate() {
    assert_eq!(find_ranges("a1 b22 c333", "[0-9]+", true, true), vec![1..2, 4..6, 8..11]);
    assert_eq!(find_ranges("Cat cat", "CAT", true, false), vec![0..3, 4..7]);
    assert_eq!(find_ranges("abc", "(", true, true), Vec::<std::ops::Range<usize>>::new());
    assert_eq!(find_ranges("abc", "", false, true), Vec::<std::ops::Range<usize>>::new());
}

#[test]
fn update_find_matches_clamps_the_current_match() {
    let mut app = app_with_text("one two one two one");
    app.find_query = "one".to_string();
    app.current_match_idx = 7;
    update_find_matches(&mut app);
    assert_eq!(app.find_matches, vec![0..3, 8..11, 16..19]);
    assert_eq!(app.current_match_idx, 2);
    app.find_query = "zzz".to_string();
    update_find_matches(&mut app);
    assert!(app.find_matches.is_empty());
    assert_eq!(app.current_match_idx, 0);
}

#[test]
fn stepping_through_matches_wraps_around() {
    let mut app = app_with_text("x");
    find_next(&mut app);
    assert_eq!(app.json_error.as_deref(), Some("No find matches available yet."));
    app.find_matches = vec![0..1, 2..3, 4..5];
    app.current_match_idx = 2;
    find_next(&mut app);
    assert_eq!(app.current_match_idx, 0);
    assert_eq!(app.json_error.as_deref(), Some("Find match 1 of 3."));
    find_previous(&mut app);
    assert_eq!(app.current_match_idx, 2);
    assert_eq!(app.json_error.as_deref(), Some("Find match 3 of 3."));
}

#[test]
fn replace_all_ignores_ascii_case() {
    assert_eq!(replace_all_case_insensitive_ascii("Cat cat CAT dog", "cat", "fox"), "fox fox fox dog");
    assert_eq!(replace_all_case_insensitive_ascii("aaa", "aa", "b"), "ba");
    assert_eq!(replace_all_case_insensitive_ascii("abc", "", "x"), "abc");
    assert_eq!(replace_all_case_insensitive_ascii("Ünï ÜNÏ", "ünï", "u"), "Ünï ÜNÏ");
    assert_eq!(replace_all_case_insensitive_ascii("xAbCx", "abc", ""), "xx");
}

#[test]
fn find_bar_toggles_only_in_the_schema_editor() {
    let mut app = app_with_text("t");
    toggle_find(&mut app);
    assert!(!app.find_visible);
    app.workspace = Workspace::SchemaEditor;
    toggle_find(&mut app);
    assert!(app.find_visible);
    toggle_replace(&mut app);
    assert!(app.replace_visible);
    app.find_matches = vec![0..1];
    app.current_match_idx = 0;
    toggle_find(&mut app);
    assert!(!app.find_visible);
    assert!(!app.replace_visible);
    assert!(app.find_matches.is_empty());
}

#[test]
fn split_parts_keeps_empty_parts() {
    assert_eq!(split_parts("a+b", '+'), vec!["a".to_string(), "b".to_string()]);
    assert_eq!(split_parts("a++", '+'), vec!["a".to_string(), String::new(), String::new()]);
    assert_eq!(split_parts("", '+'), vec![String::new()]);
}

#[test]
fn parse_shortcuts() {
    let s = parse_shortcut("Ctrl+S").unwrap();
    assert!(s.modifiers.command);
    assert!(!s.modifiers.shift);
    assert_eq!(s.logical_key, Key::S);
    let s = parse_shortcut(" ctrl + shift + Tab ").unwrap();
    assert!(s.modifiers.command && s.modifiers.shift && !s.modifiers.alt);
    assert_eq!(s.logical_key, Key::Tab);
    let s = parse_shortcut("Alt+ArrowLeft").unwrap();
    assert!(s.modifiers.alt);
    assert_eq!(s.logical_key, Key::ArrowLeft);
    assert_eq!(parse_shortcut("Ctrl+Plus").unwrap().logical_key, Key::Equals);
    assert_eq!(parse_shortcut("Ctrl+Comma").unwrap().logical_key, Key::Comma);
    assert_eq!(parse_shortcut("F11").unwrap().logical_key, Key::F11);
    assert_eq!(parse_shortcut("Ctrl+0").unwrap().logical_key, Key::Num0);
    assert_eq!(parse_shortcut("a+b").unwrap().logical_key, Key::B);
    assert!(parse_shortcut("Ctrl").is_none());
    assert!(parse_shortcut("Ctrl+Hyper").is_none());
    assert!(parse_shortcut("Ctrl++").is_none());
    assert!(parse_shortcut("").is_none());
}

#[test]
fn default_bindings_in_order() {
    let b = shortcut_bindings(&ShortcutsConfig::default());
    assert_eq!(b.len(), 23);
    assert_eq!(b[0], ("Ctrl+Comma".to_string(), ShortcutAction::OpenSettings));
    assert_eq!(b[2], ("Ctrl+Z".to_string(), ShortcutAction::Undo));
    assert_eq!(b[8], ("Ctrl+3".to_string(), ShortcutAction::ShowWorkspace(Workspace::VisualEditor)));
    assert_eq!(b[12], ("Ctrl+H".to_string(), ShortcutAction::ToggleReplace));
    assert_eq!(b[18], ("Escape".to_string(), ShortcutAction::ShowWorkspace(Workspace::Browse)));
    assert_eq!(b[22], ("Ctrl+0".to_string(), ShortcutAction::ActualSize));
    for (text, _) in &b {
        assert!(parse_shortcut(text).is_some(), "default shortcut {} does not parse", text);
    }
}

#[test]
fn replace_all_follows_the_find_settings() {
    assert_eq!(replace_all_text("a.b.a", "a", "x", false, true), "x.b.x");
    assert_eq!(replace_all_text("Aa", "a", "b", false, false), "bb");
    assert_eq!(replace_all_text("Aa", "a", "b", false, true), "Ab");
    assert_eq!(replace_all_text("aaa", "aa", "b", false, true), "ba");
    assert_eq!(replace_all_text("a1b22", r"\d+", "#", true, true), "a#b#");
    assert_eq!(replace_all_text("john smith", r"(\w+) (\w+)", "$2 $1", true, true), "smith john");
    assert_eq!(replace_all_text("ABC abc", "b", "_", true, false), "A_C a_c");
    assert_eq!(replace_all_text("keep", "(", "x", true, true), "keep");
    assert_eq!(replace_all_text("keep", "", "x", false, true), "keep");
}

#[test]
fn replace_current_match_in_schema_text() {
    let mut app = app_with_text("héllo héllo");
    app.find_query = "héllo".to_string();
    app.find_case_sensitive = true;
    update_find_matches(&mut app);
    assert_eq!(app.find_matches, vec![0..6, 7..13]);
    app.current_match_idx = 1;
    app.replace_query = "X".to_string();
    replace_current_match(&mut app);
    assert_eq!(app.raw_schema_text, "héllo X");
    update_find_matches(&mut app);
    assert_eq!(app.find_matches, vec![0..6]);
    assert_eq!(app.current_match_idx, 0);

    let mut app = app_with_text("cat cot");
    app.find_query = "c.t".to_string();
    app.find_use_regex = true;
    update_find_matches(&mut app);
    app.replace_query = "[$0]".to_string();
    replace_current_match(&mut app);
    assert_eq!(app.raw_schema_text, "[cat] cot");

    let mut app = app_with_text("abc");
    replace_current_match(&mut app);
    assert_eq!(app.raw_schema_text, "abc");
    app.find_query = "B".to_string();
    app.replace_query = "-".to_string();
    replace_all_in_schema(&mut app);
    assert_eq!(app.raw_schema_text, "a-c");
}

#[test]
fn case_insensitive_replace_ignores_the_case_of_find() {
    let text = "Cat cat CAT dog";
    assert_eq!(
        replace_all_case_insensitive_ascii(text, "cat", "x"),
        replace_all_case_insensitive_ascii(text, "CAT", "x")
    );
    assert_eq!(replace_all_case_insensitive_ascii(text, "cAt", "x"), "x x x dog");
    let lower = "abcabc ab";
    assert_eq!(replace_all_case_insensitive_ascii(lower, "ab", "Z"), lower.replace("ab", "Z"));
}

#[test]
fn default_settings_shortcut_is_ctrl_comma() {
    let config = ShortcutsConfig::default();
    assert!(parse_shortcut(&config.open_settings).is_some());
    assert_eq!(parse_shortcut(&config.open_settings), parse_shortcut("Ctrl + ,"));
}
