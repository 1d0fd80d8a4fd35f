use mflash_studio::assets::{
    asset_file_name, asset_matches_filter, classify_asset, collect_assets, format_card_label,
    remove_asset_reference, summarize_assets, truncate_middle, visible_assets, AssetKind, AssetRow,
};
use mflash_studio::browse::{browse_matches, browse_tile_label};
use mflash_studio::cover::{
    active_cover, is_supported_image_extension, offers_discovered_cover, pick_cover_image,
    root_media_src_of, set_cover,
};
use mflash_studio::json::JsonValue;
use mflash_studio::models::{Card, CardKind, MFlashDeck, MediaInfo};
use mflash_studio::studio::MFlashStudioApp;

fn media(src: &str, kind: &str) -> MediaInfo {
    MediaInfo {
        id: None,
        src: src.to_string(),
        media_type: kind.to_string(),
        role: None,
        alt: None,
        description: None,
    }
}

fn card(id: &str, term: Option<&str>, media_list: Vec<MediaInfo>) -> Card {
    Card {
        id: id.to_string(),
        kind: CardKind::Basic,
        term: term.map(|t| t.to_string()),
        definition: Some("def".to_string()),
        prompt: None,
        answer: None,
        term_lang: None,
        def_lang: None,
        notes: None,
        tags: Vec::new(),
        examples: Vec::new(),
        media: media_list,
        occlusion: None,
        lexical: None,
    }
}

fn deck(cards: Vec<Card>) -> MFlashDeck {
    MFlashDeck {
        format: "mflash".to_string(),
        version: 3,
        id: "d".to_string(),
        title: "Deck".to_string(),
        description: None,
        snippet: None,
        default_term_lang: None,
        default_def_lang: None,
        deck_tags: Vec::new(),
        cover: None,
        cards,
    }
}

fn app_with(cards: Vec<Card>) -> MFlashStudioApp {
    MFlashStudioApp::new("deck.mflash".to_string(), Some(deck(cards)), "{}".to_string())
}

#[test]
fn classify_by_extension() {
    assert_eq!(classify_asset("a/b/photo.JPG").label(), "Image");
    assert_eq!(classify_asset("anim.gif").label(), "GIF");
    assert_eq!(classify_asset("x.svg").label(), "SVG");
    assert_eq!(classify_asset("s.flac").label(), "Audio");
    assert_eq!(classify_asset("v.mkv").label(), "Video");
    assert_eq!(classify_asset("f.woff2").label(), "Font");
    assert_eq!(classify_asset("d.yml").label(), "Data");
    assert_eq!(classify_asset("README").label(), "File");
    assert_eq!(classify_asset("notes.txt").label(), "TXT");
    assert_eq!(classify_asset("notes.txt").filter_key(), "other");
    assert_eq!(classify_asset("notes.txt").icon(), "?");
    assert!(classify_asset("p.png").can_thumbnail());
    assert!(classify_asset("p.gif").can_thumbnail());
    assert!(!classify_asset("p.svg").can_thumbnail());
}

#[test]
fn kind_keys_and_icons() {
    assert_eq!(AssetKind::Image.filter_key(), "images");
    assert_eq!(AssetKind::Audio.icon(), "♪");
    assert_eq!(AssetKind::Other("ext".to_string()).label(), "EXT");
}

#[test]
fn file_names_and_truncation() {
    assert_eq!(asset_file_name("assets/cards/c1/pic.png"), "pic.png");
    assert_eq!(asset_file_name("/"), "/");
    assert_eq!(truncate_middle("short", 10), "short");
    assert_eq!(truncate_middle("abcdefghij", 3), "...");
    assert_eq!(truncate_middle("abcdefghij", 8), "ab...hij");
    assert_eq!(truncate_middle("abcdefghijklmnop", 9), "abc...nop");
    assert_eq!(format_card_label(0, "A very long term indeed"), "1: A very ...m indeed");
    assert_eq!(format_card_label(9, "Dog"), "10: Dog");
}

#[test]
fn collect_assets_lists_every_reference() {
    let app = app_with(vec![
        card("c1", Some("Cat"), vec![media("cat.png", "image"), media("meow.mp3", "audio")]),
        card("c2", None, vec![]),
        card("c3", None, vec![media("x.bin", "file")]),
    ]);
    let rows = collect_assets(&app);
    assert_eq!(rows.len(), 3);
    assert_eq!((rows[0].card_index, rows[0].media_index), (0, 0));
    assert_eq!((rows[1].card_index, rows[1].media_index), (0, 1));
    assert_eq!(rows[1].src, "meow.mp3");
    assert_eq!(rows[1].kind.label(), "Audio");
    assert_eq!((rows[2].card_index, rows[2].media_index), (2, 0));
    assert_eq!(rows[2].card_term, "(Untitled)");
    let none = MFlashStudioApp::new(String::new(), None, String::new());
    assert!(collect_assets(&none).is_empty());
}

#[test]
fn filters_and_search() {
    let app = app_with(vec![
        card("c1", Some("Cat"), vec![media("cat.png", "image"), media("meow.mp3", "audio")]),
        card("c2", Some("Dog"), vec![media("dog.PNG", "image")]),
    ]);
    let rows = collect_assets(&app);
    assert!(asset_matches_filter(&rows[0], "all"));
    assert!(asset_matches_filter(&rows[0], "images"));
    assert!(!asset_matches_filter(&rows[1], "images"));
    assert_eq!(visible_assets(&rows, "images", ""), vec![0, 2]);
    assert_eq!(visible_assets(&rows, "all", "  DOG "), vec![2]);
    assert_eq!(visible_assets(&rows, "all", "audio"), vec![1]);
    assert_eq!(visible_assets(&rows, "video", ""), Vec::<usize>::new());
}

#[test]
fn summary_counts_labels_in_order() {
    let app = app_with(vec![card(
        "c1",
        Some("Cat"),
        vec![
            media("a.png", "image"),
            media("b.mp3", "audio"),
            media("c.png", "image"),
            media("d.txt", "text"),
            media("e.gif", "image"),
        ],
    )]);
    let rows = collect_assets(&app);
    let summary = summarize_assets(&rows);
    assert_eq!(
        summary,
        vec![
            ("Audio".to_string(), 1),
            ("GIF".to_string(), 1),
            ("Image".to_string(), 2),
            ("TXT".to_string(), 1)
        ]
    );
    let empty: Vec<AssetRow> = Vec::new();
    assert!(summarize_assets(&empty).is_empty());
}

#[test]
fn removing_a_reference_is_undoable() {
    let mut app = app_with(vec![card("c1", Some("Cat"), vec![media("a.png", "image"), media("b.png", "image")])]);
    assert!(!remove_asset_reference(&mut app, 0, 5));
    assert!(!remove_asset_reference(&mut app, 3, 0));
    assert!(app.undo_stack.is_empty());
    assert!(remove_asset_reference(&mut app, 0, 0));
    assert_eq!(app.deck.as_ref().unwrap().cards[0].media.len(), 1);
    assert_eq!(app.deck.as_ref().unwrap().cards[0].media[0].src, "b.png");
    assert!(app.undo());
    assert_eq!(app.deck.as_ref().unwrap().cards[0].media.len(), 2);
}

#[test]
fn cover_extensions_and_choice() {
    assert!(is_supported_image_extension("webp"));
    assert!(!is_supported_image_extension("PNG"));
    assert!(!is_supported_image_extension("svg"));
    assert_eq!(active_cover(None, Some("b".to_string()), Some("c".to_string())), Some("b".to_string()));
    assert_eq!(active_cover(Some("a".to_string()), Some("b".to_string()), None), Some("a".to_string()));
    assert_eq!(active_cover(None, None, Some("c".to_string())), Some("c".to_string()));
    assert!(offers_discovered_cover(&Some("x.png".to_string()), &"x.png".to_string(), false));
    assert!(!offers_discovered_cover(&Some("x.png".to_string()), &"x.png".to_string(), true));
    assert!(!offers_discovered_cover(&None, &"x.png".to_string(), false));
}

#[test]
fn pick_cover_prefers_cover_then_thumbnails_then_root() {
    let names = vec![
        "deck.json".to_string(),
        "assets/cards/c1/a.png".to_string(),
        "root.jpg".to_string(),
        "assets/thumb.webp".to_string(),
        "folder/".to_string(),
        "notes.txt".to_string(),
    ];
    assert_eq!(pick_cover_image(&names), Some("assets/thumb.webp".to_string()));
    let names = vec!["assets/x.png".to_string(), "Art/Cover.PNG".to_string(), "b/cover.gif".to_string()];
    assert_eq!(pick_cover_image(&names), Some("Art/Cover.PNG".to_string()));
    let names = vec!["assets/x.png".to_string(), "y.jpeg".to_string()];
    assert_eq!(pick_cover_image(&names), Some("y.jpeg".to_string()));
    let names = vec!["deck.json".to_string(), "a.txt".to_string()];
    assert_eq!(pick_cover_image(&names), None);
}

#[test]
fn root_media_src_reads_the_document() {
    let cover = JsonValue::Object(vec![("src".to_string(), JsonValue::Str("img/c.png".to_string()))]);
    let doc = JsonValue::Object(vec![
        ("title".to_string(), JsonValue::Str("T".to_string())),
        ("cover".to_string(), cover),
    ]);
    assert_eq!(root_media_src_of(&doc, "cover"), Some("img/c.png".to_string()));
    assert_eq!(root_media_src_of(&doc, "missing"), None);
    let blank = JsonValue::Object(vec![(
        "cover".to_string(),
        JsonValue::Object(vec![("src".to_string(), JsonValue::Str("  ".to_string()))]),
    )]);
    assert_eq!(root_media_src_of(&blank, "cover"), None);
    assert_eq!(root_media_src_of(&JsonValue::Null, "cover"), None);
}

#[test]
fn setting_a_cover() {
    let mut app = app_with(vec![]);
    set_cover(&mut app, "/tmp/c.png".to_string(), true);
    let cover = app.deck.as_ref().unwrap().cover.as_ref().unwrap();
    assert_eq!(cover.src, "/tmp/c.png");
    assert_eq!(cover.role.as_deref(), Some("cover"));
    assert_eq!(cover.alt.as_deref(), Some("Deck cover image"));
    set_cover(&mut app, "in/pkg.png".to_string(), false);
    assert_eq!(app.deck.as_ref().unwrap().cover.as_ref().unwrap().alt, None);
    assert_eq!(app.undo_stack.len(), 2);
}

#[test]
fn browse_search_and_labels() {
    let cards = vec![card("1", Some("Apple"), vec![]), card("2", None, vec![]), card("3", Some("Pineapple"), vec![])];
    assert_eq!(browse_matches(&cards, ""), vec![0, 1, 2]);
    assert_eq!(browse_matches(&cards, "  APPLE "), vec![0, 2]);
    assert_eq!(browse_matches(&cards, "kiwi"), Vec::<usize>::new());
    assert_eq!(browse_tile_label(0, &Some("Apple".to_string())), "1: Apple");
    assert_eq!(browse_tile_label(4, &None), "5: (Untitled)");
}
