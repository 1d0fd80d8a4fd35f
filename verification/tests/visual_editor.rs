use mflash_studio::models::{Card, CardKind, Example, LexicalInfo, MFlashDeck, MediaInfo};
use mflash_studio::studio::MFlashStudioApp;
use mflash_studio::visual::{
    add_card_at_end, card_kind_name, deck_language_or_english, edit_examples, empty_occlusion,
    ensure_lexical, is_droppable_image, optional_trimmed, parse_tags, set_card_image, speech_plan,
    tags_text, BasicEditorActions, ExampleActions, LanguagePicker, SpeechPlan, TopBar,
};

fn media(src: &str, kind: &str) -> MediaInfo {
    MediaInfo {
        id: None,
        src: src.to_string(),
        media_type: kind.to_string(),
        role: None,
        alt: Some("alt".to_string()),
        description: None,
    }
}

fn card(id: &str) -> Card {
    Card {
        id: id.to_string(),
        kind: CardKind::Basic,
        term: Some("chat".to_string()),
        definition: Some("cat".to_string()),
        prompt: None,
        answer: None,
        term_lang: Some("fr".to_string()),
        def_lang: None,
        notes: None,
        tags: Vec::new(),
        examples: Vec::new(),
        media: Vec::new(),
        occlusion: None,
        lexical: None,
    }
}

fn app_with(cards: Vec<Card>) -> MFlashStudioApp {
    let deck = MFlashDeck {
        format: "mflash".to_string(),
        version: 3,
        id: "d".to_string(),
        title: "Deck".to_string(),
        description: None,
        snippet: None,
        default_term_lang: None,
        default_def_lang: None,
        deck_tags: Vec::new(),
        cover: None,
        cards,
    };
    MFlashStudioApp::new(String::new(), Some(deck), String::new())
}

#[test]
fn top_bar_position_counts_from_one() {
    let (mut a, mut b, mut c, mut d, mut e, mut f) = (false, false, false, false, false, false);
    let bar = TopBar {
        selected_index: 4,
        total_cards: 12,
        editor_mode: true,
        enable_tts: &mut a,
        enable_media_audio: &mut b,
        go_back: &mut c,
        trigger_speak: &mut d,
        action_add_card: &mut e,
        action_save: &mut f,
    };
    assert_eq!(bar.position_text(), "Card 5 of 12");
}

#[test]
fn language_picker_caption_search_and_commit() {
    let mut lang: Option<String> = None;
    let mut search = "GER".to_string();
    let picker = LanguagePicker {
        id_source: "term",
        current_lang: &mut lang,
        fallback_lang: "French",
        search_query: &mut search,
    };
    assert_eq!(picker.caption(), "Default: French");
    assert!(picker.offers_custom());
    let listed = picker.listed_languages();
    assert!(!listed.is_empty());
    assert!(listed.iter().all(|l| l.display_name.to_lowercase().contains("ger") || l.bcp_47.to_lowercase().contains("ger")));
    assert!(picker.commit("  de-DE "));
    assert_eq!(lang.as_deref(), Some("de-DE"));
    assert_eq!(search, "");
    let mut search = String::new();
    let picker = LanguagePicker {
        id_source: "term",
        current_lang: &mut lang,
        fallback_lang: "French",
        search_query: &mut search,
    };
    assert_eq!(picker.caption(), "de-DE");
    assert!(!picker.offers_custom());
    assert!(picker.commit("   "));
    assert_eq!(lang, None);
}

#[test]
fn editor_actions_accumulate() {
    let mut actions = BasicEditorActions::default();
    assert!(!actions.json_needs_sync && !actions.core_needs_sync);
    actions.mark_changed();
    assert!(actions.json_needs_sync && actions.core_needs_sync);
    let examples = ExampleActions { add_example: true, remove_example: Some(2), changed: true };
    actions.take_example_actions(&examples);
    assert!(actions.action_add_sentence);
    assert_eq!(actions.action_remove_sentence, Some(2));
    let none = ExampleActions::default();
    assert!(!none.add_example && none.remove_example.is_none() && !none.changed);
}

#[test]
fn tags_text_round_trip() {
    let tags = vec!["verb".to_string(), "a1".to_string()];
    let text = tags_text(&tags);
    assert_eq!(text, "verb, a1");
    assert_eq!(parse_tags(&text), tags);
    assert_eq!(parse_tags(" x ,, y,  "), vec!["x".to_string(), "y".to_string()]);
    assert_eq!(parse_tags(""), Vec::<String>::new());
    assert_eq!(tags_text(&Vec::new()), "");
}

#[test]
fn small_field_helpers() {
    assert_eq!(optional_trimmed("  en "), Some("en".to_string()));
    assert_eq!(optional_trimmed(" \t "), None);
    assert_eq!(card_kind_name(CardKind::Cloze), "Cloze / Fill-in-the-blank");
    assert_eq!(card_kind_name(CardKind::Basic), "Basic (Term/Def)");
    assert_eq!(deck_language_or_english(&None), "English");
    assert_eq!(deck_language_or_english(&Some("fr".to_string())), "fr");
    let occ = empty_occlusion();
    assert_eq!(occ.image.media_type, "image");
    assert_eq!(occ.image.role.as_deref(), Some("occlusion_image"));
    assert!(occ.image.src.is_empty() && occ.masks.is_empty());
    let mut c = card("c");
    ensure_lexical(&mut c);
    let l = c.lexical.as_ref().unwrap();
    assert!(l.phonetic.is_none() && l.forms.is_empty());
    c.lexical = Some(LexicalInfo {
        phonetic: Some("ʃa".to_string()),
        part_of_speech: None,
        forms: Vec::new(),
        synonyms: Vec::new(),
        antonyms: Vec::new(),
    });
    ensure_lexical(&mut c);
    assert_eq!(c.lexical.as_ref().unwrap().phonetic.as_deref(), Some("ʃa"));
}

#[test]
fn droppable_images_by_extension() {
    assert!(is_droppable_image("/tmp/a.PNG"));
    assert!(is_droppable_image("b.jpeg"));
    assert!(is_droppable_image("c.webp"));
    assert!(!is_droppable_image("d.bmp"));
    assert!(!is_droppable_image("noext"));
}

#[test]
fn adding_cards_and_examples() {
    let mut app = app_with(vec![card("c1")]);
    add_card_at_end(&mut app, "card-2".to_string());
    let deck = app.deck.as_ref().unwrap();
    assert_eq!(deck.cards.len(), 2);
    assert_eq!(deck.cards[1].id, "card-2");
    assert_eq!(deck.cards[1].term.as_deref(), Some(""));
    assert_eq!(app.selected_index, 1);
    assert_eq!(app.undo_stack.len(), 1);
    edit_examples(&mut app, true, None);
    edit_examples(&mut app, true, None);
    assert_eq!(app.deck.as_ref().unwrap().cards[1].examples.len(), 2);
    edit_examples(&mut app, false, Some(0));
    let examples = &app.deck.as_ref().unwrap().cards[1].examples;
    assert_eq!(examples.len(), 1);
    assert!(matches!(&examples[0], Example::Text(t) if t.is_empty()));
    assert_eq!(app.undo_stack.len(), 4);
    let mut empty = MFlashStudioApp::new(String::new(), None, String::new());
    add_card_at_end(&mut empty, "x".to_string());
    assert!(empty.deck.is_none());
}

#[test]
fn dropped_image_becomes_the_only_media() {
    let mut c = card("c1");
    c.media = vec![media("a.mp3", "audio"), media("b.png", "image")];
    let mut app = app_with(vec![c]);
    set_card_image(&mut app, "/pics/new.png".to_string());
    let m = &app.deck.as_ref().unwrap().cards[0].media;
    assert_eq!(m.len(), 1);
    assert_eq!(m[0].src, "/pics/new.png");
    assert_eq!(m[0].media_type, "image");
    assert_eq!(m[0].role.as_deref(), Some("illustration"));
    assert!(m[0].alt.is_none());
    assert_eq!(app.undo_stack.len(), 1);
    let mut none = MFlashStudioApp::new(String::new(), None, String::new());
    set_card_image(&mut none, "/x.png".to_string());
    assert!(none.undo_stack.is_empty());
}

#[test]
fn speech_plan_prefers_recordings() {
    let mut c = card("c1");
    c.media = vec![media("b.png", "image"), media("first.mp3", "audio"), media("second.mp3", "audio")];
    let mut app = app_with(vec![c]);
    match speech_plan(&app, "en", "de") {
        SpeechPlan::PlayFile { src } => assert_eq!(src, "first.mp3"),
        _ => panic!("expected the recording"),
    }
    app.enable_media_audio = false;
    match speech_plan(&app, "en", "de") {
        SpeechPlan::Speak { term, term_lang, definition, def_lang } => {
            assert_eq!(term, "chat");
            assert_eq!(term_lang, "fr");
            assert_eq!(definition, "cat");
            assert_eq!(def_lang, "de");
        }
        _ => panic!("expected speech"),
    }
    app.enable_tts = false;
    assert!(matches!(speech_plan(&app, "en", "de"), SpeechPlan::Nothing));
    let none = MFlashStudioApp::new(String::new(), None, String::new());
    assert!(matches!(speech_plan(&none, "en", "de"), SpeechPlan::Nothing));
}
