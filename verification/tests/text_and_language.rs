use mflash_studio::audio::bcp47::{normalize_to_bcp47, supported_languages};
use mflash_studio::audio::{find_voice, speak_command, speech_code, voice_matches, AudioCommand};
use mflash_studio::text::{decimal_string, str_contains, str_ends_with, trim_str};
use mflash_studio::text_tools::{normalize_spaces, run_text_tool, sentence_case, trim_lines, TextTool};

#[test]
fn trim_str_removes_unicode_whitespace() {
    assert_eq!(trim_str("  \t hello world \n"), "hello world");
    assert_eq!(trim_str("\u{3000}x\u{00A0}"), "x");
    assert_eq!(trim_str("   "), "");
}

#[test]
fn decimal_string_writes_numbers() {
    assert_eq!(decimal_string(0), "0");
    assert_eq!(decimal_string(7), "7");
    assert_eq!(decimal_string(1042), "1042");
}

#[test]
fn string_search_helpers() {
    assert!(str_contains("flashcards", "card"));
    assert!(!str_contains("flash", "card"));
    assert!(str_contains("abc", ""));
    assert!(str_ends_with("deck.mflash.json", ".json"));
    assert!(!str_ends_with("deck.mflash", ".json"));
}

#[test]
fn normalize_known_names_and_codes() {
    assert_eq!(normalize_to_bcp47("English"), "en-US");
    assert_eq!(normalize_to_bcp47("  eng "), "en-US");
    assert_eq!(normalize_to_bcp47("EN_GB"), "en-GB");
    assert_eq!(normalize_to_bcp47(" Estonian "), "et-EE");
    assert_eq!(normalize_to_bcp47("pt-br"), "pt-PT");
    assert_eq!(normalize_to_bcp47("Mandarin"), "zh-CN");
    assert_eq!(normalize_to_bcp47("lat"), "la");
    assert_eq!(normalize_to_bcp47("he-IL"), "he-IL");
}

#[test]
fn normalize_empty_and_custom_tags() {
    assert_eq!(normalize_to_bcp47(""), "en-US");
    assert_eq!(normalize_to_bcp47("   "), "en-US");
    assert_eq!(normalize_to_bcp47("  sr-Latn-RS "), "sr-Latn-RS");
    assert_eq!(normalize_to_bcp47("en-AU"), "en-AU");
}

#[test]
fn supported_language_table_order() {
    let langs = supported_languages();
    assert_eq!(langs.len(), 19);
    assert_eq!(langs[0].display_name, "English (US)");
    assert_eq!(langs[0].bcp_47, "en-US");
    assert_eq!(langs[10].bcp_47, "zh-CN");
    assert_eq!(langs[18].display_name, "Latin");
    assert_eq!(langs[18].bcp_47, "la");
}

#[test]
fn speak_command_carries_its_arguments() {
    match speak_command("hola", Some("Spanish"), true) {
        AudioCommand::Speak { text, language, interrupt } => {
            assert_eq!(text, "hola");
            assert_eq!(language, Some("Spanish".to_string()));
            assert!(interrupt);
        }
        AudioCommand::Stop => panic!("expected a speak command"),
    }
    match speak_command("hi", None, false) {
        AudioCommand::Speak { language, interrupt, .. } => {
            assert_eq!(language, None);
            assert!(!interrupt);
        }
        AudioCommand::Stop => panic!("expected a speak command"),
    }
}

#[test]
fn speech_code_defaults_to_english() {
    assert_eq!(speech_code(None), "en-US");
    assert_eq!(speech_code(Some("french")), "fr-FR");
}

#[test]
fn voice_matching_is_case_insensitive_and_prefix_based() {
    assert!(voice_matches("en-US", "en-us"));
    assert!(voice_matches("EN-US", "en"));
    assert!(!voice_matches("en", "en-US"));
    let voices = vec!["de-DE".to_string(), "en-GB".to_string(), "en-US".to_string()];
    assert_eq!(find_voice(&voices, "en-US"), Some(2));
    assert_eq!(find_voice(&voices, "en"), Some(1));
    assert_eq!(find_voice(&voices, "fr-FR"), None);
}

#[test]
fn trim_lines_trims_each_line() {
    assert_eq!(trim_lines("  a  \n\tb\r\n c "), "a\nb\nc");
    assert_eq!(trim_lines("x\n"), "x");
    assert_eq!(trim_lines(""), "");
    assert_eq!(trim_lines("\n"), "");
    assert_eq!(trim_lines("a\n\nb"), "a\n\nb");
}

#[test]
fn normalize_spaces_collapses_whitespace() {
    assert_eq!(normalize_spaces("  a   b\t\tc \n"), "a b c");
    assert_eq!(normalize_spaces(""), "");
    assert_eq!(normalize_spaces("   "), "");
    assert_eq!(normalize_spaces("one"), "one");
}

#[test]
fn sentence_case_capitalises_first_letter() {
    assert_eq!(sentence_case("  hELLO World "), "Hello world");
    assert_eq!(sentence_case("   "), "");
    assert_eq!(sentence_case("ßa"), "SSa");
}

#[test]
fn text_tools_apply_their_transformations() {
    assert_eq!(run_text_tool(TextTool::Lowercase, "AbC"), "abc");
    assert_eq!(run_text_tool(TextTool::Uppercase, "AbC"), "ABC");
    assert_eq!(run_text_tool(TextTool::NormalizeSpaces, " a  b "), "a b");
    assert_eq!(run_text_tool(TextTool::TrimWhitespace, " a \n b "), "a\nb");
    assert_eq!(run_text_tool(TextTool::SentenceCase, "the END"), "The end");
}

#[test]
fn normalizing_a_tag_again_changes_nothing() {
    for input in ["  Estonian ", "EN", "", "x-klingon", " pt-br", "Mandarin", "custom tag "] {
        let once = normalize_to_bcp47(input);
        assert_eq!(normalize_to_bcp47(&once), once, "input {:?}", input);
    }
}
