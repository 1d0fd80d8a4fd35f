use mflash_studio::config::WorkspacesConfig;
use mflash_studio::edit::{
    can_move_current_card_down, can_move_current_card_up, clear_schema_text, delete_current_card,
    duplicate_current_card, has_current_card, move_current_card, new_card_from_current_template,
    reset_current_card_media, swap_current_card_front_back, transform_schema_text,
};
use mflash_studio::menus::{format_label, report_schema, select_all, take_card_selection, SchemaReport};
use mflash_studio::models::{default_card_kind, default_format, default_version_v3, Card, CardKind, MFlashDeck, MediaInfo};
use mflash_studio::save::{begin_save, finish_save, live_save_card, report_save_failure, save_target, SaveStage, SaveStart};
use mflash_studio::selection::{
    card_has_audio, card_has_image, matching_indices, select_cards_missing_audio, select_cards_missing_images,
    select_cards_with_media, set_selected_indices, CardQuery,
};
use mflash_studio::studio::{MFlashStudioApp, SchemaFormat, Workspace};
use mflash_studio::text_tools::{apply_text_tool, TextTool};

fn media(src: &str, kind: &str) -> MediaInfo {
    MediaInfo {
        id: None,
        src: src.to_string(),
        media_type: kind.to_string(),
        role: None,
        alt: None,
        description: None,
    }
}

fn card(id: &str, term: &str, def: &str) -> Card {
    Card {
        id: id.to_string(),
        kind: CardKind::Basic,
        term: Some(term.to_string()),
        definition: Some(def.to_string()),
        prompt: Some("p".to_string()),
        answer: None,
        term_lang: Some("en".to_string()),
        def_lang: None,
        notes: None,
        tags: Vec::new(),
        examples: Vec::new(),
        media: Vec::new(),
        occlusion: None,
        lexical: None,
    }
}

fn deck(cards: Vec<Card>) -> MFlashDeck {
    MFlashDeck {
        format: "mflash".to_string(),
        version: 3,
        id: "d".to_string(),
        title: "Deck".to_string(),
        description: None,
        snippet: None,
        default_term_lang: Some("fr".to_string()),
        default_def_lang: None,
        deck_tags: Vec::new(),
        cover: None,
        cards,
    }
}

fn app3() -> MFlashStudioApp {
    MFlashStudioApp::new(
        "d.mflash".to_string(),
        Some(deck(vec![card("c1", "one", "1"), card("c2", "two", "2"), card("c3", "three", "3")])),
        "text".to_string(),
    )
}

fn terms(app: &MFlashStudioApp) -> Vec<String> {
    app.deck.as_ref().unwrap().cards.iter().map(|c| c.term.clone().unwrap_or_default()).collect()
}

#[test]
fn model_defaults() {
    assert_eq!(default_format(), "mflash");
    assert_eq!(default_version_v3(), 3);
    assert_eq!(default_card_kind(), CardKind::Basic);
}

#[test]
fn undo_and_redo_restore_states() {
    let mut app = app3();
    assert!(!app.undo());
    app.selected_index = 1;
    delete_current_card(&mut app);
    assert_eq!(terms(&app), vec!["one", "three"]);
    assert_eq!(app.json_error.as_deref(), Some("Deleted current card."));
    assert!(app.undo());
    assert_eq!(terms(&app), vec!["one", "two", "three"]);
    assert_eq!(app.selected_index, 1);
    assert!(app.redo());
    assert_eq!(terms(&app), vec!["one", "three"]);
    assert!(!app.redo());
}

#[test]
fn new_and_duplicate_cards() {
    let mut app = app3();
    app.selected_index = 0;
    new_card_from_current_template(&mut app);
    assert_eq!(terms(&app), vec!["one", "", "two", "three"]);
    assert_eq!(app.selected_index, 1);
    let new_card = &app.deck.as_ref().unwrap().cards[1];
    assert_eq!(new_card.id, "card-4");
    assert_eq!(new_card.term_lang.as_deref(), Some("fr"));
    assert_eq!(app.json_error.as_deref(), Some("Created a new blank card."));
    app.selected_index = 2;
    duplicate_current_card(&mut app);
    assert_eq!(terms(&app), vec!["one", "", "two", "two", "three"]);
    assert_eq!(app.deck.as_ref().unwrap().cards[3].id, "card-5");
    assert_eq!(app.selected_index, 3);
    delete_current_card(&mut app);
    assert_eq!(terms(&app), vec!["one", "", "two", "three"]);
}

#[test]
fn moving_cards() {
    let mut app = app3();
    app.selected_index = 0;
    assert!(!can_move_current_card_up(&app));
    assert!(can_move_current_card_down(&app));
    move_current_card(&mut app, 1);
    assert_eq!(terms(&app), vec!["two", "one", "three"]);
    assert_eq!(app.selected_index, 1);
    assert_eq!(app.json_error.as_deref(), Some("Moved card down."));
    move_current_card(&mut app, -1);
    assert_eq!(terms(&app), vec!["one", "two", "three"]);
    assert_eq!(app.json_error.as_deref(), Some("Moved card up."));
    let before = app.undo_stack.len();
    move_current_card(&mut app, -1);
    assert_eq!(app.undo_stack.len(), before);
}

#[test]
fn swap_and_reset() {
    let mut app = app3();
    app.selected_index = 2;
    swap_current_card_front_back(&mut app);
    let c = &app.deck.as_ref().unwrap().cards[2];
    assert_eq!(c.term.as_deref(), Some("3"));
    assert_eq!(c.definition.as_deref(), Some("three"));
    assert_eq!(c.answer.as_deref(), Some("p"));
    assert_eq!(c.prompt, None);
    assert_eq!(c.def_lang.as_deref(), Some("en"));
    app.deck.as_mut().unwrap().cards[2].media.push(media("a.png", "image"));
    reset_current_card_media(&mut app);
    assert!(app.deck.as_ref().unwrap().cards[2].media.is_empty());
    assert!(has_current_card(&app));
    app.selected_index = 9;
    assert!(!has_current_card(&app));
}

#[test]
fn schema_text_tools() {
    let mut app = app3();
    app.raw_schema_text = "  Hello   World ".to_string();
    apply_text_tool(&mut app, TextTool::NormalizeSpaces);
    assert_eq!(app.raw_schema_text, "Hello World");
    assert_eq!(app.json_error.as_deref(), Some("Text tool applied to schema text."));
    clear_schema_text(&mut app);
    assert_eq!(app.raw_schema_text, "");
    assert!(app.undo());
    assert_eq!(app.raw_schema_text, "Hello World");
}

#[test]
fn selections_of_cards() {
    let mut app = app3();
    app.deck.as_mut().unwrap().cards[0].media.push(media("x.mp3", "file"));
    app.deck.as_mut().unwrap().cards[2].media.push(media("y.png", "image"));
    assert!(card_has_audio(&app.deck.as_ref().unwrap().cards[0]));
    assert!(card_has_image(&app.deck.as_ref().unwrap().cards[2]));
    assert!(!card_has_image(&app.deck.as_ref().unwrap().cards[1]));
    select_cards_with_media(&mut app);
    assert_eq!(app.last_selected_text, "0, 2");
    assert_eq!(app.json_error.as_deref(), Some("Selected 2 card(s) with media into the app selection buffer."));
    select_cards_missing_audio(&mut app);
    assert_eq!(app.last_selected_text, "1, 2");
}

#[test]
fn workspaces_and_selection() {
    let mut app = app3();
    let all = WorkspacesConfig::default();
    assert_eq!(app.visible_workspaces(&all).len(), 5);
    assert_eq!(app.workspace_by_offset(&all, 1), Workspace::VisualEditor);
    assert_eq!(app.workspace_by_offset(&all, -2), Workspace::SchemaEditor);
    let none = WorkspacesConfig {
        show_deck: false,
        show_browse: false,
        show_visual_editor: false,
        show_media: false,
        show_schema_editor: false,
    };
    assert_eq!(app.visible_workspaces(&none), vec![Workspace::Browse]);
    assert!(app.set_index(10));
    assert_eq!(app.selected_index, 2);
    assert!(!app.select_next());
    assert!(app.select_previous());
    assert_eq!(app.selected_index, 1);
    assert!(app.switch_workspace(Workspace::SchemaEditor, true));
    assert!(!app.switch_workspace(Workspace::Browse, false));
    assert_eq!(app.workspace, Workspace::SchemaEditor);
    assert!(app.switch_workspace(Workspace::Browse, true));
}

#[test]
fn syncing_schema_text() {
    let mut app = app3();
    app.selected_index = 2;
    assert!(!app.sync_text_to_deck(Err("bad line 3".to_string())));
    assert_eq!(app.json_error.as_deref(), Some("Schema Parse Error: bad line 3"));
    assert!(app.sync_text_to_deck(Ok(deck(vec![card("z", "z", "z")]))));
    assert_eq!(app.selected_index, 0);
    assert_eq!(app.json_error, None);
    app.refresh_schema_text(Err("boom".to_string()));
    assert_eq!(app.json_error.as_deref(), Some("Schema Render Error: boom"));
    app.refresh_schema_text(Ok("rendered".to_string()));
    assert_eq!(app.raw_schema_text, "rendered");
    app.close_deck();
    assert!(app.deck.is_none());
    app.refresh_schema_text(Ok("ignored".to_string()));
    assert_eq!(app.raw_schema_text, "");
}

#[test]
fn menu_reports() {
    let mut app = app3();
    select_all(&mut app);
    assert_eq!(app.json_error.as_deref(), Some("Select All is currently implemented for the Schema Editor buffer."));
    app.workspace = Workspace::SchemaEditor;
    select_all(&mut app);
    assert_eq!(app.last_selected_text, "text");
    report_schema(&mut app, SchemaReport::Converted(SchemaFormat::Yaml));
    assert_eq!(app.json_error.as_deref(), Some("Schema converted to YAML."));
    assert_eq!(format_label(SchemaFormat::Toml), "TOML");
    take_card_selection(&mut app, Err("nope".to_string()));
    assert_eq!(app.json_error.as_deref(), Some("Selection Error: nope"));
    take_card_selection(&mut app, Ok("{card}".to_string()));
    assert_eq!(app.last_selected_text, "{card}");
}

#[test]
fn save_decisions() {
    let mut app = app3();
    match begin_save(&mut app) {
        SaveStart::Refused => {}
        SaveStart::Proceed { .. } => panic!("no workspace is open"),
    }
    assert_eq!(app.json_error.as_deref(), Some("Save Error: No active mflash-core workspace."));
    app.active_workspace_id = Some("ws1".to_string());
    app.workspace = Workspace::VisualEditor;
    app.selected_index = 1;
    match begin_save(&mut app) {
        SaveStart::Proceed { workspace_id, flush_card, parse_schema } => {
            assert_eq!(workspace_id, "ws1");
            assert_eq!(flush_card, Some(1));
            assert!(!parse_schema);
        }
        SaveStart::Refused => panic!("a workspace is open"),
    }
    report_save_failure(&mut app, SaveStage::Pack, "disk full");
    assert_eq!(app.json_error.as_deref(), Some("Save Error: Failed to pack deck: disk full"));
    report_save_failure(&mut app, SaveStage::CacheDir, "ignored");
    assert_eq!(app.json_error.as_deref(), Some("Save Error: Could not find home/cache directory."));
    assert_eq!(finish_save(&mut app), mflash_studio::sfx::SoundEffect::Save);
    assert_eq!(app.json_error, None);
    assert_eq!(save_target(&app), Some("d.mflash".to_string()));
    app.path = String::new();
    assert_eq!(save_target(&app), None);
    let live = live_save_card(&app, 1).unwrap();
    assert_eq!(live.id, "c2");
    assert_eq!(live.term.as_deref(), Some("two"));
    assert!(live_save_card(&app, 3).is_none());
    app.enable_live_save = false;
    assert!(live_save_card(&app, 1).is_none());
}

#[test]
fn transform_schema_text_applies_any_function() {
    let mut app = app3();
    app.raw_schema_text = "abc".to_string();
    transform_schema_text(&mut app, |t| format!("[{}]", t.to_uppercase()));
    assert_eq!(app.raw_schema_text, "[ABC]");
    assert_eq!(app.json_error.as_deref(), Some("Text tool applied to schema text."));
    assert!(app.undo());
    assert_eq!(app.raw_schema_text, "abc");
}

#[test]
fn selections_by_query_and_by_hand() {
    let mut app = app3();
    app.deck.as_mut().unwrap().cards[1].media.push(media("b.jpg", "file"));
    app.deck.as_mut().unwrap().cards[2].media.push(media("c.ogg", "file"));
    let cards = &app.deck.as_ref().unwrap().cards;
    assert_eq!(matching_indices(cards, CardQuery::WithMedia), vec![1, 2]);
    assert_eq!(matching_indices(cards, CardQuery::MissingImages), vec![0, 2]);
    assert_eq!(matching_indices(cards, CardQuery::MissingAudio), vec![0, 1]);
    select_cards_missing_images(&mut app);
    assert_eq!(app.last_selected_text, "0, 2");
    assert_eq!(
        app.json_error.as_deref(),
        Some("Selected 2 card(s) missing images into the app selection buffer.")
    );
    set_selected_indices(&mut app, vec![7, 10, 3], "chosen card(s)");
    assert_eq!(app.last_selected_text, "7, 10, 3");
    assert_eq!(app.json_error.as_deref(), Some("Selected 3 chosen card(s) into the app selection buffer."));
    set_selected_indices(&mut app, Vec::new(), "x");
    assert_eq!(app.last_selected_text, "");
}
