use mflash_studio::config::WorkspacesConfig;
use mflash_studio::config::ShortcutsConfig;
use mflash_studio::input::{shortcut_bindings, ShortcutAction, ShortcutEffect};
use mflash_studio::menus::{report_cut, report_paste};
use mflash_studio::models::{Card, CardKind, MFlashDeck, MediaInfo};
use mflash_studio::save::{workspace_cache_folder, set_deck_path};
use mflash_studio::studio::{CentralView, MFlashStudioApp, Workspace};

fn card(id: &str, term: &str) -> Card {
    Card {
        id: id.to_string(),
        kind: CardKind::Basic,
        term: Some(term.to_string()),
        definition: None,
        prompt: None,
        answer: None,
        term_lang: None,
        def_lang: None,
        notes: None,
        tags: Vec::new(),
        examples: Vec::new(),
        media: Vec::new(),
        occlusion: None,
        lexical: None,
    }
}

fn deck(cards: Vec<Card>) -> MFlashDeck {
    MFlashDeck {
        format: "mflash".to_string(),
        version: 3,
        id: "d".to_string(),
        title: "Deck".to_string(),
        description: None,
        snippet: None,
        default_term_lang: None,
        default_def_lang: None,
        deck_tags: Vec::new(),
        cover: None,
        cards,
    }
}

fn app_with(n: usize) -> MFlashStudioApp {
    let cards = (0..n).map(|i| card(&format!("c{}", i), &format!("t{}", i))).collect();
    MFlashStudioApp::new("d.mflash".to_string(), Some(deck(cards)), "{}".to_string())
}

fn all_workspaces() -> WorkspacesConfig {
    WorkspacesConfig::default()
}

#[test]
fn new_app_starts_in_the_browser() {
    let app = MFlashStudioApp::new(String::new(), None, String::new());
    assert_eq!(app.workspace, Workspace::Browse);
    assert_eq!(app.selected_index, 0);
    assert!(app.enable_tts && app.enable_media_audio && app.editor_mode && app.show_images);
    assert!(!app.show_settings);
    assert_eq!(app.settings_category, "Flashcards");
    assert!(app.undo_stack.is_empty() && app.redo_stack.is_empty());
}

#[test]
fn central_view_follows_deck_and_selection() {
    let mut app = MFlashStudioApp::new(String::new(), None, String::new());
    assert_eq!(app.central_view(), CentralView::NoDeck);
    app.workspace = Workspace::SchemaEditor;
    assert_eq!(app.central_view(), CentralView::Workspace(Workspace::SchemaEditor));
    let mut app = app_with(2);
    app.workspace = Workspace::VisualEditor;
    assert_eq!(app.central_view(), CentralView::Workspace(Workspace::VisualEditor));
    app.selected_index = 5;
    assert_eq!(app.central_view(), CentralView::NoCardSelected);
    app.workspace = Workspace::Media;
    assert_eq!(app.central_view(), CentralView::Workspace(Workspace::Media));
}

#[test]
fn shortcuts_change_the_state_or_ask_the_window() {
    let ws = all_workspaces();
    let mut app = app_with(3);
    assert_eq!(app.handle_shortcuts(ShortcutAction::OpenSettings, &ws), ShortcutEffect::Done);
    assert!(app.show_settings);
    assert_eq!(app.handle_shortcuts(ShortcutAction::SaveDeck, &ws), ShortcutEffect::Save);
    assert_eq!(app.handle_shortcuts(ShortcutAction::Undo, &ws), ShortcutEffect::Done);
    assert_eq!(
        app.handle_shortcuts(ShortcutAction::NextWorkspace, &ws),
        ShortcutEffect::SwitchTo(Workspace::VisualEditor)
    );
    assert_eq!(
        app.handle_shortcuts(ShortcutAction::PreviousWorkspace, &ws),
        ShortcutEffect::SwitchTo(Workspace::Deck)
    );
    assert_eq!(app.workspace, Workspace::Browse);
    assert_eq!(app.handle_shortcuts(ShortcutAction::NextItem, &ws), ShortcutEffect::SelectionMoved);
    assert_eq!(app.selected_index, 1);
    assert_eq!(app.handle_shortcuts(ShortcutAction::PreviousItem, &ws), ShortcutEffect::SelectionMoved);
    assert_eq!(app.handle_shortcuts(ShortcutAction::PreviousItem, &ws), ShortcutEffect::Done);
    assert_eq!(app.selected_index, 0);
    assert_eq!(app.handle_shortcuts(ShortcutAction::ZoomIn, &ws), ShortcutEffect::ZoomIn);
    assert_eq!(app.handle_shortcuts(ShortcutAction::ZoomOut, &ws), ShortcutEffect::ZoomOut);
    assert_eq!(app.handle_shortcuts(ShortcutAction::ActualSize, &ws), ShortcutEffect::ActualSize);
    assert_eq!(app.handle_shortcuts(ShortcutAction::ExitFullscreen, &ws), ShortcutEffect::ExitFullscreen);
}

#[test]
fn shortcut_to_a_hidden_workspace_does_nothing() {
    let ws = WorkspacesConfig { show_media: false, ..all_workspaces() };
    let mut app = app_with(1);
    assert_eq!(
        app.handle_shortcuts(ShortcutAction::ShowWorkspace(Workspace::Media), &ws),
        ShortcutEffect::Done
    );
    assert_eq!(
        app.handle_shortcuts(ShortcutAction::ShowWorkspace(Workspace::Deck), &ws),
        ShortcutEffect::SwitchTo(Workspace::Deck)
    );
    assert_eq!(
        app.handle_shortcuts(ShortcutAction::NextWorkspace, &ws),
        ShortcutEffect::SwitchTo(Workspace::VisualEditor)
    );
}

#[test]
fn find_shortcuts_work_in_the_schema_editor_only() {
    let ws = all_workspaces();
    let mut app = app_with(1);
    app.handle_shortcuts(ShortcutAction::ToggleFind, &ws);
    assert!(!app.find_visible);
    app.workspace = Workspace::SchemaEditor;
    app.handle_shortcuts(ShortcutAction::ToggleReplace, &ws);
    assert!(app.find_visible && app.replace_visible);
    app.find_matches = vec![0..1];
    app.current_match_idx = 0;
    app.handle_shortcuts(ShortcutAction::ToggleFind, &ws);
    assert!(!app.find_visible && !app.replace_visible);
    assert!(app.find_matches.is_empty());
}

#[test]
fn undo_shortcut_restores() {
    let ws = all_workspaces();
    let mut app = app_with(2);
    app.push_snapshot();
    app.deck = None;
    assert_eq!(app.handle_shortcuts(ShortcutAction::Undo, &ws), ShortcutEffect::Restored);
    assert_eq!(app.deck.as_ref().unwrap().cards.len(), 2);
    assert_eq!(app.handle_shortcuts(ShortcutAction::Redo, &ws), ShortcutEffect::Restored);
    assert!(app.deck.is_none());
    assert_eq!(app.handle_shortcuts(ShortcutAction::Redo, &ws), ShortcutEffect::Done);
}

#[test]
fn schema_text_round_trip() {
    let mut app = app_with(3);
    app.selected_index = 2;
    assert!(!app.sync_text_to_deck(Err("bad".to_string())));
    assert_eq!(app.json_error.as_deref(), Some("Schema Parse Error: bad"));
    assert_eq!(app.deck.as_ref().unwrap().cards.len(), 3);
    assert!(app.sync_text_to_deck(Ok(deck(vec![card("x", "x")]))));
    assert_eq!(app.selected_index, 0);
    assert!(app.json_error.is_none());
    app.refresh_schema_text(Err("oops".to_string()));
    assert_eq!(app.json_error.as_deref(), Some("Schema Render Error: oops"));
    assert_eq!(app.raw_schema_text, "{}");
    app.refresh_schema_text(Ok("[x]".to_string()));
    assert_eq!(app.raw_schema_text, "[x]");
    assert!(app.json_error.is_none());
    app.apply_schema_deck(deck(vec![]));
    assert_eq!(app.undo_stack.len(), 1);
    assert_eq!(app.deck.as_ref().unwrap().cards.len(), 0);
    app.close_deck();
    app.refresh_schema_text(Ok("ignored".to_string()));
    assert_eq!(app.raw_schema_text, "");
}

#[test]
fn opening_and_switching() {
    let mut app = MFlashStudioApp::new(String::new(), None, String::new());
    assert!(!app.open_deck("x.mflash".to_string(), None));
    assert_eq!(app.path, "");
    assert!(!app.switch_workspace(Workspace::VisualEditor, true));
    assert!(app.open_deck("x.mflash".to_string(), Some((deck(vec![card("a", "a")]), "{ }".to_string()))));
    assert_eq!(app.path, "x.mflash");
    assert_eq!(app.raw_schema_text, "{ }");
    app.selected_index = 4;
    assert!(app.switch_workspace(Workspace::VisualEditor, false));
    assert_eq!(app.selected_index, 0);
    assert!(app.switch_workspace(Workspace::SchemaEditor, false));
    assert!(!app.switch_workspace(Workspace::Browse, false));
    assert_eq!(app.workspace, Workspace::SchemaEditor);
    assert!(app.switch_workspace(Workspace::Browse, true));
}

#[test]
fn current_image_is_the_first_media() {
    let mut app = app_with(2);
    assert_eq!(app.current_image_src(), None);
    app.deck.as_mut().unwrap().cards[0].media.push(MediaInfo {
        id: None,
        src: "/img/a.png".to_string(),
        media_type: "image".to_string(),
        role: None,
        alt: None,
        description: None,
    });
    assert_eq!(app.current_image_src().as_deref(), Some("/img/a.png"));
    assert!(app.has_valid_selected_card());
    app.selected_index = 2;
    assert!(!app.has_valid_selected_card());
    assert_eq!(app.current_image_src(), None);
}

#[test]
fn menu_reports_and_deck_path() {
    let mut app = app_with(1);
    report_cut(&mut app);
    assert!(app.json_error.as_deref().unwrap().starts_with("Cut copied the last tracked selection."));
    report_paste(&mut app);
    assert_eq!(
        app.json_error.as_deref(),
        Some("Use Ctrl+V inside the active text field. Menu paste is limited by this egui version.")
    );
    set_deck_path(&mut app, "/decks/new.mflash".to_string());
    assert_eq!(app.path, "/decks/new.mflash");
}

#[test]
fn workspace_cache_folder_prefers_the_database_folder() {
    let mut app = app_with(1);
    assert_eq!(workspace_cache_folder(&app, Some("/home/u".to_string())), None);
    app.active_workspace_id = Some("w1".to_string());
    assert_eq!(
        workspace_cache_folder(&app, Some("/home/u".to_string())).as_deref(),
        Some("/home/u/.mflash_cache/w1")
    );
    assert_eq!(workspace_cache_folder(&app, None), None);
    app.active_db_path = Some("/cache/w1/workspace.db".to_string());
    assert_eq!(workspace_cache_folder(&app, None).as_deref(), Some("/cache/w1"));
    app.active_db_path = Some("/".to_string());
    assert_eq!(
        workspace_cache_folder(&app, Some("/home/u".to_string())).as_deref(),
        Some("/home/u/.mflash_cache/w1")
    );
}

fn action_for(text: &str) -> ShortcutAction {
    let bindings = shortcut_bindings(&ShortcutsConfig::default());
    bindings.iter().find(|(t, _)| t == text).map(|(_, a)| *a).unwrap()
}

#[test]
fn readme_shortcut_table() {
    let ws = all_workspaces();
    let mut app = app_with(3);
    assert_eq!(app.handle_shortcuts(action_for("Ctrl+Comma"), &ws), ShortcutEffect::Done);
    assert!(app.show_settings);
    assert_eq!(app.handle_shortcuts(action_for("ArrowDown"), &ws), ShortcutEffect::SelectionMoved);
    assert_eq!(app.selected_index, 1);
    assert_eq!(app.handle_shortcuts(action_for("ArrowUp"), &ws), ShortcutEffect::SelectionMoved);
    assert_eq!(app.selected_index, 0);
    app.push_snapshot();
    app.deck.as_mut().unwrap().cards.pop();
    assert_eq!(app.handle_shortcuts(action_for("Ctrl+Z"), &ws), ShortcutEffect::Restored);
    assert_eq!(app.deck.as_ref().unwrap().cards.len(), 3);
    assert_eq!(app.handle_shortcuts(action_for("Ctrl+Y"), &ws), ShortcutEffect::Restored);
    assert_eq!(app.deck.as_ref().unwrap().cards.len(), 2);
    assert_eq!(app.handle_shortcuts(action_for("Ctrl+S"), &ws), ShortcutEffect::Save);
    assert_eq!(
        app.handle_shortcuts(action_for("Enter"), &ws),
        ShortcutEffect::SwitchTo(Workspace::VisualEditor)
    );
    assert_eq!(
        app.handle_shortcuts(action_for("Escape"), &ws),
        ShortcutEffect::SwitchTo(Workspace::Browse)
    );
}

#[test]
fn workspace_cycling_comes_back() {
    let ws = WorkspacesConfig { show_deck: false, ..all_workspaces() };
    let mut app = app_with(1);
    for start in [Workspace::Browse, Workspace::VisualEditor, Workspace::Media, Workspace::SchemaEditor] {
        for k in [1isize, 2, -3, 7] {
            app.workspace = start;
            let there = app.workspace_by_offset(&ws, k);
            app.workspace = there;
            assert_eq!(app.workspace_by_offset(&ws, -k), start);
        }
    }
}

#[test]
fn next_then_previous_card_comes_back() {
    let mut app = app_with(4);
    app.selected_index = 2;
    assert!(app.select_next());
    assert_eq!(app.selected_index, 3);
    assert!(app.select_previous());
    assert_eq!(app.selected_index, 2);
}
