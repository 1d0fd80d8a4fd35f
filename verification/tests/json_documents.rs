use mflash_studio::json::{
    append_card_object, insert_field, new_card_object, optional_text, set_card_image_in_document,
    set_image_media, sync_card_fields, sync_card_into_document, tags_array, text_or_empty,
    CardJsonParts, JsonValue,
};
use mflash_studio::models::{Card, CardKind};

fn text(s: &str) -> JsonValue {
    JsonValue::Str(s.to_string())
}

fn obj(fields: Vec<(&str, JsonValue)>) -> JsonValue {
    JsonValue::Object(fields.into_iter().map(|(k, v)| (k.to_string(), v)).collect())
}

/// Compact JSON text of a value, fields in their stored order.
fn show(v: &JsonValue) -> String {
    match v {
        JsonValue::Null => "null".to_string(),
        JsonValue::Bool(b) => b.to_string(),
        JsonValue::Number(n) => n.clone(),
        JsonValue::Str(s) => format!("\"{}\"", s),
        JsonValue::Array(items) => {
            let parts: Vec<String> = items.iter().map(show).collect();
            format!("[{}]", parts.join(","))
        }
        JsonValue::Object(fields) => {
            let parts: Vec<String> = fields.iter().map(|(k, v)| format!("\"{}\":{}", k, show(v))).collect();
            format!("{{{}}}", parts.join(","))
        }
    }
}

fn field<'a>(fields: &'a [(String, JsonValue)], key: &str) -> Option<&'a JsonValue> {
    fields.iter().find(|(k, _)| k == key).map(|(_, v)| v)
}

fn get<'a>(v: &'a JsonValue, key: &str) -> Option<&'a JsonValue> {
    match v {
        JsonValue::Object(fields) => field(fields, key),
        _ => None,
    }
}

fn card_at(doc: &JsonValue, i: usize) -> &JsonValue {
    match get(doc, "cards") {
        Some(JsonValue::Array(cards)) => &cards[i],
        _ => panic!("no cards"),
    }
}

fn card() -> Card {
    Card {
        id: "c1".to_string(),
        kind: CardKind::Basic,
        term: Some("chat".to_string()),
        definition: None,
        prompt: None,
        answer: Some("a cat".to_string()),
        term_lang: Some("fr".to_string()),
        def_lang: None,
        notes: None,
        tags: vec!["animal".to_string(), "a1".to_string()],
        examples: Vec::new(),
        media: Vec::new(),
        occlusion: None,
        lexical: None,
    }
}

fn parts() -> CardJsonParts {
    CardJsonParts {
        kind: text("basic"),
        lexical: JsonValue::Null,
        occlusion: JsonValue::Null,
        examples: vec![text("Le chat dort.")],
    }
}

#[test]
fn insert_field_replaces_in_place_or_appends() {
    let mut fields = vec![("a".to_string(), text("1")), ("b".to_string(), JsonValue::Null)];
    insert_field(&mut fields, "a", JsonValue::Bool(true));
    insert_field(&mut fields, "c", JsonValue::Number("2.50".to_string()));
    assert_eq!(show(&JsonValue::Object(fields)), "{\"a\":true,\"b\":null,\"c\":2.50}");
}

#[test]
fn field_values() {
    assert_eq!(show(&optional_text(&Some("x".to_string()))), "\"x\"");
    assert_eq!(show(&optional_text(&None)), "null");
    assert_eq!(show(&text_or_empty(&None)), "\"\"");
    assert_eq!(show(&text_or_empty(&Some("y".to_string()))), "\"y\"");
    assert_eq!(show(&tags_array(&vec!["p".to_string(), "q".to_string()])), "[\"p\",\"q\"]");
}

#[test]
fn syncing_writes_the_editor_fields_and_keeps_the_rest() {
    let mut o = vec![
        ("id".to_string(), text("c1")),
        ("term".to_string(), text("old")),
        ("extra".to_string(), JsonValue::Number("7".to_string())),
    ];
    sync_card_fields(&mut o, &card(), parts());
    assert_eq!(show(field(&o, "term").unwrap()), "\"chat\"");
    assert_eq!(show(field(&o, "definition").unwrap()), "\"\"");
    assert_eq!(show(field(&o, "prompt").unwrap()), "null");
    assert_eq!(show(field(&o, "answer").unwrap()), "\"a cat\"");
    assert_eq!(show(field(&o, "term_lang").unwrap()), "\"fr\"");
    assert_eq!(show(field(&o, "def_lang").unwrap()), "null");
    assert_eq!(show(field(&o, "kind").unwrap()), "\"basic\"");
    assert_eq!(show(field(&o, "tags").unwrap()), "[\"animal\",\"a1\"]");
    assert_eq!(show(field(&o, "examples").unwrap()), "[\"Le chat dort.\"]");
    assert_eq!(show(field(&o, "extra").unwrap()), "7");
    assert_eq!(show(field(&o, "id").unwrap()), "\"c1\"");
}

#[test]
fn syncing_into_a_document_needs_the_card_object() {
    let mut doc = obj(vec![("title", text("T")), ("cards", JsonValue::Array(vec![obj(vec![("id", text("c1"))])]))]);
    assert!(sync_card_into_document(&mut doc, 0, &card(), parts()));
    assert_eq!(show(get(card_at(&doc, 0), "term").unwrap()), "\"chat\"");
    assert_eq!(show(get(&doc, "title").unwrap()), "\"T\"");
    let before = show(&doc);
    assert!(!sync_card_into_document(&mut doc, 1, &card(), parts()));
    assert_eq!(show(&doc), before);
    let mut not_doc = JsonValue::Array(vec![]);
    assert!(!sync_card_into_document(&mut not_doc, 0, &card(), parts()));
    assert_eq!(show(&not_doc), "[]");
}

#[test]
fn image_media_keeps_the_first_alt() {
    let mut o = vec![(
        "media".to_string(),
        JsonValue::Array(vec![
            obj(vec![("src", text("old.png")), ("alt", text("a cat"))]),
            obj(vec![("src", text("b.mp3"))]),
        ]),
    )];
    set_image_media(&mut o, "/new.png".to_string());
    let media = field(&o, "media").unwrap();
    assert_eq!(
        show(media),
        "[{\"id\":null,\"src\":\"/new.png\",\"type\":\"image\",\"role\":\"illustration\",\"alt\":\"a cat\"}]"
    );
    let mut bare: Vec<(String, JsonValue)> = Vec::new();
    set_image_media(&mut bare, "x.png".to_string());
    assert_eq!(
        show(&JsonValue::Object(bare)),
        "{\"media\":[{\"id\":null,\"src\":\"x.png\",\"type\":\"image\",\"role\":\"illustration\"}]}"
    );
}

#[test]
fn image_into_document() {
    let mut doc = obj(vec![("cards", JsonValue::Array(vec![obj(vec![]), obj(vec![("id", text("c2"))])]))]);
    assert!(set_card_image_in_document(&mut doc, 1, "p.png".to_string()));
    assert_eq!(show(get(card_at(&doc, 1), "media").unwrap()), "[{\"id\":null,\"src\":\"p.png\",\"type\":\"image\",\"role\":\"illustration\"}]");
    assert_eq!(show(card_at(&doc, 0)), "{}");
    assert!(!set_card_image_in_document(&mut doc, 2, "p.png".to_string()));
}

#[test]
fn new_cards_are_appended() {
    let blank = new_card_object("card-9");
    assert_eq!(
        show(&blank),
        "{\"id\":\"card-9\",\"kind\":\"basic\",\"term\":\"\",\"definition\":\"\",\"prompt\":null,\"answer\":null,\"term_lang\":null,\"def_lang\":null,\"lexical\":null,\"notes\":null,\"media\":[],\"tags\":[],\"examples\":[],\"occlusion\":null}"
    );
    let mut doc = obj(vec![("cards", JsonValue::Array(vec![])), ("title", text("T"))]);
    assert!(append_card_object(&mut doc, blank));
    assert_eq!(show(get(card_at(&doc, 0), "id").unwrap()), "\"card-9\"");
    assert_eq!(show(get(&doc, "title").unwrap()), "\"T\"");
    let mut no_cards = obj(vec![("cards", JsonValue::Null)]);
    assert!(!append_card_object(&mut no_cards, new_card_object("x")));
    assert_eq!(show(&no_cards), "{\"cards\":null}");
}
