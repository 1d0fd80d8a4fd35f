use mflash_studio::cover::root_media_src_from_raw_json;
use mflash_studio::json::{CardJsonParts, JsonValue};
use mflash_studio::json_sync::{add_card_to_json, sync_current_card, sync_image_to_json, sync_selected_card};
use mflash_studio::models::{Card, CardKind, MFlashDeck};
use mflash_studio::studio::MFlashStudioApp;

fn card(id: &str, term: Option<&str>) -> Card {
    Card {
        id: id.to_string(),
        kind: CardKind::Basic,
        term: term.map(|t| t.to_string()),
        definition: None,
        prompt: None,
        answer: Some("a cat".to_string()),
        term_lang: None,
        def_lang: None,
        notes: None,
        tags: vec!["animal".to_string()],
        examples: Vec::new(),
        media: Vec::new(),
        occlusion: None,
        lexical: None,
    }
}

fn deck(cards: Vec<Card>) -> MFlashDeck {
    MFlashDeck {
        format: "mflash".to_string(),
        version: 3,
        id: "d".to_string(),
        title: "Deck".to_string(),
        description: None,
        snippet: None,
        default_term_lang: None,
        default_def_lang: None,
        deck_tags: Vec::new(),
        cover: None,
        cards,
    }
}

fn parts() -> CardJsonParts {
    CardJsonParts {
        kind: JsonValue::Str("basic".to_string()),
        lexical: JsonValue::Null,
        occlusion: JsonValue::Null,
        examples: vec![JsonValue::Str("Le chat dort.".to_string())],
    }
}

fn app(text: &str, cards: Option<Vec<Card>>) -> MFlashStudioApp {
    MFlashStudioApp::new("d.mflash".to_string(), cards.map(deck), text.to_string())
}

fn parsed(text: &str) -> serde_json::Value {
    serde_json::from_str(text).unwrap()
}

#[test]
fn syncing_rewrites_the_schema_text_with_the_card_fields() {
    let mut a = app(
        r#"{"title":"Deck","cards":[{"id":"c1","term":"old","extra":7},{"id":"c2"}]}"#,
        Some(vec![card("c1", Some("chat")), card("c2", None)]),
    );
    assert!(sync_current_card(&mut a, parts()));
    let v = parsed(&a.raw_schema_text);
    assert!(a.raw_schema_text.contains('\n'));
    assert_eq!(v["title"], "Deck");
    assert_eq!(v["cards"][0]["term"], "chat");
    assert_eq!(v["cards"][0]["definition"], "");
    assert_eq!(v["cards"][0]["answer"], "a cat");
    assert_eq!(v["cards"][0]["prompt"], serde_json::Value::Null);
    assert_eq!(v["cards"][0]["extra"], 7);
    assert_eq!(v["cards"][0]["kind"], "basic");
    assert_eq!(v["cards"][0]["tags"][0], "animal");
    assert_eq!(v["cards"][0]["examples"][0], "Le chat dort.");
    assert_eq!(v["cards"][1], parsed(r#"{"id":"c2"}"#));
}

#[test]
fn syncing_text_that_is_not_json_leaves_it_alone() {
    let mut a = app("not json", Some(vec![card("c1", Some("chat"))]));
    assert!(!sync_current_card(&mut a, parts()));
    assert_eq!(a.raw_schema_text, "not json");
}

#[test]
fn syncing_without_a_card_object_only_reformats() {
    let mut a = app(r#"{"cards":[1]}"#, Some(vec![card("c1", Some("chat"))]));
    assert!(!sync_current_card(&mut a, parts()));
    assert_eq!(parsed(&a.raw_schema_text), parsed(r#"{"cards":[1]}"#));
    assert_ne!(a.raw_schema_text, r#"{"cards":[1]}"#);
    let mut closed = app(r#"{"cards":[{"id":"c1"}]}"#, None);
    assert!(!sync_current_card(&mut closed, parts()));
    assert_eq!(parsed(&closed.raw_schema_text), parsed(r#"{"cards":[{"id":"c1"}]}"#));
}

#[test]
fn selected_card_sync_refuses_a_card_the_deck_lacks() {
    let mut a = app(r#"{"cards":[{"id":"c1"}]}"#, Some(Vec::new()));
    assert_eq!(sync_selected_card(&mut a, parts()), None);
    assert_eq!(a.raw_schema_text, r#"{"cards":[{"id":"c1"}]}"#);
    let mut b = app(r#"{"cards":[{"id":"c1"}]}"#, Some(vec![card("c1", Some("chat"))]));
    assert_eq!(sync_selected_card(&mut b, parts()), Some(true));
    assert_eq!(parsed(&b.raw_schema_text)["cards"][0]["term"], "chat");
}

#[test]
fn dropped_image_is_written_into_the_schema_text() {
    let mut a = app(
        r#"{"cards":[{"id":"c1","media":[{"src":"a.png","alt":"A cat"}]}]}"#,
        Some(vec![card("c1", Some("chat"))]),
    );
    assert!(sync_image_to_json(&mut a, "/tmp/b.png"));
    let v = parsed(&a.raw_schema_text);
    let media = &v["cards"][0]["media"];
    assert_eq!(media.as_array().unwrap().len(), 1);
    assert_eq!(media[0]["src"], "/tmp/b.png");
    assert_eq!(media[0]["type"], "image");
    assert_eq!(media[0]["role"], "illustration");
    assert_eq!(media[0]["alt"], "A cat");
    assert_eq!(media[0]["id"], serde_json::Value::Null);
    let mut other = app("[]", None);
    assert!(!sync_image_to_json(&mut other, "/tmp/b.png"));
}

#[test]
fn new_card_is_added_to_the_schema_text() {
    let mut a = app(r#"{"cards":[{"id":"c1"}]}"#, None);
    assert!(add_card_to_json(&mut a, "card_9"));
    let v = parsed(&a.raw_schema_text);
    assert_eq!(v["cards"].as_array().unwrap().len(), 2);
    assert_eq!(v["cards"][1]["id"], "card_9");
    assert_eq!(v["cards"][1]["kind"], "basic");
    assert_eq!(v["cards"][1]["term"], "");
    assert_eq!(v["cards"][1]["media"], parsed("[]"));
    let mut none = app(r#"{"title":"x"}"#, None);
    assert!(!add_card_to_json(&mut none, "card_9"));
    assert_eq!(parsed(&none.raw_schema_text), parsed(r#"{"title":"x"}"#));
}

#[test]
fn cover_source_from_the_schema_text() {
    assert_eq!(
        root_media_src_from_raw_json(r#"{"cover":{"src":"assets/c.png"}}"#, "cover"),
        Some("assets/c.png".to_string())
    );
    assert_eq!(root_media_src_from_raw_json(r#"{"cover":{"src":"  "}}"#, "cover"), None);
    assert_eq!(root_media_src_from_raw_json(r#"{"cover":"c.png"}"#, "cover"), None);
    assert_eq!(root_media_src_from_raw_json("{cover", "cover"), None);
}

#[test]
fn numbers_keep_their_value_through_a_sync() {
    let text = r#"{"cards":[{"id":"c1","x":2.2250738585072014e-308,"y":0.30000000000000004,"n":-12,"big":18446744073709551615}]}"#;
    let mut a = app(text, Some(vec![card("c1", Some("chat"))]));
    assert!(sync_current_card(&mut a, parts()));
    let before = parsed(text);
    let after = parsed(&a.raw_schema_text);
    for key in ["x", "y", "n", "big"] {
        assert_eq!(after["cards"][0][key], before["cards"][0][key], "field {}", key);
    }
}
