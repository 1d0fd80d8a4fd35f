use mflash_studio::archive::{
    already_added, check_deck_version, collect_external_assets, collect_present_assets, deduplicated_path,
    ingest_media_src, is_raw_json_path, is_unsafe_package_path, keep_package_entry,
    sanitize_file_name, saves_as_raw_json, temp_package_path, IngestItem,
};
use mflash_studio::models::{Card, CardKind, Example, ExampleInfo, MFlashDeck, MediaInfo, Occlusion};

fn media(src: &str) -> MediaInfo {
    MediaInfo {
        id: None,
        src: src.to_string(),
        media_type: "image".to_string(),
        role: None,
        alt: None,
        description: None,
    }
}

fn card(id: &str, media_list: Vec<MediaInfo>) -> Card {
    Card {
        id: id.to_string(),
        kind: CardKind::Basic,
        term: Some("term".to_string()),
        definition: Some("def".to_string()),
        prompt: None,
        answer: None,
        term_lang: None,
        def_lang: None,
        notes: None,
        tags: Vec::new(),
        examples: Vec::new(),
        media: media_list,
        occlusion: None,
        lexical: None,
    }
}

fn deck(version: u32, cards: Vec<Card>) -> MFlashDeck {
    MFlashDeck {
        format: "mflash".to_string(),
        version,
        id: "deck-1".to_string(),
        title: "Deck".to_string(),
        description: None,
        snippet: None,
        default_term_lang: None,
        default_def_lang: None,
        deck_tags: Vec::new(),
        cover: None,
        cards,
    }
}

#[test]
fn sanitize_keeps_safe_characters_only() {
    assert_eq!(sanitize_file_name("My Photo (1).PNG"), "My_Photo__1_.PNG");
    assert_eq!(sanitize_file_name("a-b_c.d"), "a-b_c.d");
    assert_eq!(sanitize_file_name("é/x"), "__x");
    assert_eq!(sanitize_file_name(""), "");
}

#[test]
fn sanitize_twice_is_sanitize_once() {
    let once = sanitize_file_name("ünï cödé?.jpg");
    assert_eq!(sanitize_file_name(&once), once);
}

#[test]
fn unsafe_package_paths_are_detected() {
    assert!(is_unsafe_package_path("/etc/passwd"));
    assert!(is_unsafe_package_path("\\windows\\file"));
    assert!(is_unsafe_package_path("assets/../../x"));
    assert!(is_unsafe_package_path("..\\x"));
    assert!(is_unsafe_package_path(".."));
    assert!(is_unsafe_package_path("C:/data"));
    assert!(!is_unsafe_package_path("assets/cards/c1/a.png"));
    assert!(!is_unsafe_package_path("a..b/c"));
    assert!(!is_unsafe_package_path("deck.json"));
}

#[test]
fn raw_json_paths() {
    assert!(is_raw_json_path("deck.mflash.json"));
    assert!(is_raw_json_path("deck.json"));
    assert!(!is_raw_json_path("deck.mflash"));
    assert!(saves_as_raw_json("a.mflash", "b.json"));
    assert!(saves_as_raw_json("a.json", "b.mflash"));
    assert!(!saves_as_raw_json("a.mflash", "b.mflash"));
}

#[test]
fn version_three_only() {
    assert!(check_deck_version(&deck(3, Vec::new())).is_ok());
    assert_eq!(
        check_deck_version(&deck(2, Vec::new())),
        Err("Unsupported deck version. Please use a v3 deck.".to_string())
    );
}

#[test]
fn temp_path_and_entries() {
    assert_eq!(temp_package_path("out/deck.mflash"), "out/deck.mflash.tmp");
    let added = vec!["assets/a.png".to_string()];
    assert!(already_added(&added, "assets/a.png"));
    assert!(!already_added(&added, "assets/b.png"));
    assert!(!keep_package_entry("deck.json", &added));
    assert!(!keep_package_entry("../evil", &added));
    assert!(!keep_package_entry("assets/a.png", &added));
    assert!(keep_package_entry("assets/b.png", &added));
}

#[test]
fn deduplicated_paths_count_up() {
    let used: Vec<String> = Vec::new();
    assert_eq!(deduplicated_path(&used, "assets/deck", "a.png", "a", "png"), "assets/deck/a.png");
    let used = vec!["assets/deck/a.png".to_string()];
    assert_eq!(deduplicated_path(&used, "assets/deck", "a.png", "a", "png"), "assets/deck/a_1.png");
    let used = vec![
        "assets/deck/a.png".to_string(),
        "assets/deck/a_1.png".to_string(),
        "assets/deck/a_2.png".to_string(),
    ];
    assert_eq!(deduplicated_path(&used, "assets/deck", "a.png", "a", "png"), "assets/deck/a_3.png");
    let used = vec!["d/readme".to_string()];
    assert_eq!(deduplicated_path(&used, "d", "readme", "readme", ""), "d/readme_1");
}

// A file that exists for every process on Linux.
const EXISTING_FILE: &str = "/proc/self/status";

#[test]
fn ingest_leaves_relative_and_missing_sources() {
    let mut queue: Vec<IngestItem> = Vec::new();
    let mut used: Vec<String> = Vec::new();
    let mut src = "assets/cards/c1/a.png".to_string();
    assert!(!ingest_media_src(&mut src, &mut queue, "assets/deck", &mut used));
    assert_eq!(src, "assets/cards/c1/a.png");
    let mut missing = "/definitely/not/here/x.png".to_string();
    assert!(!ingest_media_src(&mut missing, &mut queue, "assets/deck", &mut used));
    assert_eq!(missing, "/definitely/not/here/x.png");
    assert!(queue.is_empty());
    assert!(used.is_empty());
}

#[test]
fn ingest_moves_existing_files_into_the_package() {
    let path = EXISTING_FILE.to_string();
    let mut queue: Vec<IngestItem> = Vec::new();
    let mut used: Vec<String> = Vec::new();
    let mut src = path.clone();
    assert!(ingest_media_src(&mut src, &mut queue, "assets/deck", &mut used));
    assert_eq!(src, "assets/deck/status");
    assert_eq!(queue.len(), 1);
    assert_eq!(queue[0].source_path, path);
    assert_eq!(queue[0].internal_path, "assets/deck/status");
    let mut again = path.clone();
    assert!(ingest_media_src(&mut again, &mut queue, "assets/deck", &mut used));
    assert_eq!(again, "assets/deck/status_1");
    assert_eq!(used, vec!["assets/deck/status".to_string(), "assets/deck/status_1".to_string()]);
}

#[test]
fn collect_external_assets_rewrites_sources_with_distinct_paths() {
    let path = EXISTING_FILE.to_string();
    let mut c1 = card("c 1", vec![media(&path), media("assets/keep.png")]);
    c1.examples.push(Example::Detailed(ExampleInfo {
        text: "ex".to_string(),
        translation: None,
        lang: None,
        translation_lang: None,
        media: vec![media(&path)],
    }));
    let c2 = card("c2", vec![media(&path)]);
    let mut d = deck(3, vec![c1, c2]);
    d.cover = Some(media(&path));
    let mut queue: Vec<IngestItem> = Vec::new();
    collect_external_assets(&mut d, &mut queue);
    assert_eq!(d.cover.as_ref().unwrap().src, "assets/deck/status");
    assert_eq!(d.cards[0].media[0].src, "assets/cards/c_1/status");
    assert_eq!(d.cards[0].media[1].src, "assets/keep.png");
    match &d.cards[0].examples[0] {
        Example::Detailed(info) => assert_eq!(info.media[0].src, "assets/cards/c_1/status_1"),
        Example::Text(_) => panic!("example kind changed"),
    }
    assert_eq!(d.cards[1].media[0].src, "assets/cards/c2/status");
    let internal: Vec<&str> = queue.iter().map(|i| i.internal_path.as_str()).collect();
    assert_eq!(
        internal,
        vec![
            "assets/deck/status",
            "assets/cards/c_1/status",
            "assets/cards/c_1/status_1",
            "assets/cards/c2/status"
        ]
    );
    assert!(queue.iter().all(|i| i.source_path == path));
}

#[test]
fn collect_present_assets_moves_the_files_on_disk() {
    let mut c1 = card("c 1", vec![media("/pics/cat one.png"), media("assets/keep.png"), media("/missing/x.png")]);
    c1.occlusion = Some(Occlusion { image: media("/pics/cat one.png"), masks: Vec::new() });
    c1.examples.push(Example::Text("plain".to_string()));
    c1.examples.push(Example::Detailed(ExampleInfo {
        text: "ex".to_string(),
        translation: None,
        lang: None,
        translation_lang: None,
        media: vec![media("/pics/cat one.png")],
    }));
    let c2 = card("c2", vec![media("/pics/dog.jpg")]);
    let mut d = deck(3, vec![c1, c2]);
    d.cover = Some(media("/pics/cover.PNG"));
    let existing = vec!["/pics/cat one.png".to_string(), "/pics/dog.jpg".to_string(), "/pics/cover.PNG".to_string()];
    let mut queue = vec![IngestItem { source_path: "/earlier".to_string(), internal_path: "assets/earlier".to_string() }];
    collect_present_assets(&mut d, &mut queue, &existing);
    assert_eq!(d.cover.as_ref().unwrap().src, "assets/deck/cover.PNG");
    assert_eq!(d.cards[0].media[0].src, "assets/cards/c_1/cat_one.png");
    assert_eq!(d.cards[0].media[1].src, "assets/keep.png");
    assert_eq!(d.cards[0].media[2].src, "/missing/x.png");
    assert_eq!(d.cards[0].occlusion.as_ref().unwrap().image.src, "assets/cards/c_1/cat_one_1.png");
    match &d.cards[0].examples[1] {
        Example::Detailed(info) => assert_eq!(info.media[0].src, "assets/cards/c_1/cat_one_2.png"),
        Example::Text(_) => panic!("example kind changed"),
    }
    assert_eq!(d.cards[1].media[0].src, "assets/cards/c2/dog.jpg");
    let pairs: Vec<(&str, &str)> = queue.iter().map(|i| (i.source_path.as_str(), i.internal_path.as_str())).collect();
    assert_eq!(
        pairs,
        vec![
            ("/earlier", "assets/earlier"),
            ("/pics/cover.PNG", "assets/deck/cover.PNG"),
            ("/pics/cat one.png", "assets/cards/c_1/cat_one.png"),
            ("/pics/cat one.png", "assets/cards/c_1/cat_one_1.png"),
            ("/pics/cat one.png", "assets/cards/c_1/cat_one_2.png"),
            ("/pics/dog.jpg", "assets/cards/c2/dog.jpg"),
        ]
    );
}

#[test]
fn collect_present_assets_with_nothing_on_disk_changes_nothing() {
    let mut d = deck(3, vec![card("c", vec![media("/pics/a.png")])]);
    let mut queue: Vec<IngestItem> = Vec::new();
    collect_present_assets(&mut d, &mut queue, &Vec::new());
    assert_eq!(d.cards[0].media[0].src, "/pics/a.png");
    assert!(queue.is_empty());
}
