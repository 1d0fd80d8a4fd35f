//! A JSON document as the schema editor's text holds it, and the edits the visual editor
//! makes to the selected card's object in that document.

use vstd::prelude::*;
use crate::models::Card;
use crate::text::str_eq;

verus! {

/// A JSON value. Numbers keep the text they were written with.
#[derive(Debug)]
pub enum JsonValue {
    Null,
    Bool(bool),
    Number(String),
    Str(String),
    Array(Vec<JsonValue>),
    Object(Vec<(String, JsonValue)>),
}

#[verifier::external_type_specification]
#[verifier::external_body]
pub struct ExSerdeJsonValue(serde_json::Value);

/// What `serde_json::from_str` makes of `text` as a `serde_json::Value`, taken node for node
/// into a `JsonValue`; `None` where it reports an error (the text is not JSON).
pub uninterp spec fn json_text_parsed(text: Seq<char>) -> Option<JsonValue>;

/// What `serde_json::to_string_pretty` writes for `doc` taken node for node into a
/// `serde_json::Value`; `None` where it reports an error.
pub uninterp spec fn json_text_pretty(doc: JsonValue) -> Option<Seq<char>>;

/// Takes a `serde_json::Value` node for node into a `JsonValue`: numbers keep the text that
/// `serde_json::Number` writes, objects keep the order in which the map yields its fields.
#[verifier::external_body]
fn json_from_serde(v: serde_json::Value) -> JsonValue {
    match v {
        serde_json::Value::Null => JsonValue::Null,
        serde_json::Value::Bool(b) => JsonValue::Bool(b),
        serde_json::Value::Number(n) => JsonValue::Number(n.to_string()),
        serde_json::Value::String(t) => JsonValue::Str(t),
        serde_json::Value::Array(items) => JsonValue::Array(items.into_iter().map(json_from_serde).collect()),
        serde_json::Value::Object(m) => JsonValue::Object(m.into_iter().map(|(k, x)| (k, json_from_serde(x))).collect()),
    }
}

/// Takes a `JsonValue` node for node into a `serde_json::Value`. Number text is read by
/// `serde_json::Number`, built here with exact float parsing (`float_roundtrip`), so the
/// text that `json_from_serde` wrote for a number reads back as that same number; number
/// text that it does not read is kept as a string.
#[verifier::external_body]
fn json_to_serde(v: &JsonValue) -> serde_json::Value {
    match v {
        JsonValue::Null => serde_json::Value::Null,
        JsonValue::Bool(b) => serde_json::Value::Bool(*b),
        JsonValue::Number(n) => n.parse::<serde_json::Number>().map(serde_json::Value::Number).unwrap_or_else(|_| serde_json::Value::String(n.clone())),
        JsonValue::Str(t) => serde_json::Value::String(t.clone()),
        JsonValue::Array(items) => serde_json::Value::Array(items.iter().map(json_to_serde).collect()),
        JsonValue::Object(fs) => serde_json::Value::Object(fs.iter().map(|(k, x)| (k.clone(), json_to_serde(x))).collect()),
    }
}

/// `serde_json::from_str::<serde_json::Value>` on `text`: the document it reads, `None` where
/// the text is not JSON. The result is named by `json_text_parsed`.
#[verifier::external_body]
pub(crate) fn parse_json_text(text: &str) -> (r: Option<JsonValue>)
    ensures
        r == json_text_parsed(text@),
{
    serde_json::from_str::<serde_json::Value>(text).ok().map(json_from_serde)
}

/// `serde_json::to_string_pretty` on `doc`: the document as indented JSON text, `None` where
/// serde_json reports an error. The result is named by `json_text_pretty`.
#[verifier::external_body]
pub(crate) fn pretty_json_text(doc: &JsonValue) -> (r: Option<String>)
    ensures
        r.deep_view() == json_text_pretty(*doc),
{
    serde_json::to_string_pretty(&json_to_serde(doc)).ok()
}

/// `v` is the JSON string `text`.
pub open spec fn is_text(v: JsonValue, text: Seq<char>) -> bool {
    v matches JsonValue::Str(s) && s@ == text
}

/// The value under `key` in the fields of an object: the first field with that name.
pub open spec fn lookup(fields: Seq<(String, JsonValue)>, key: Seq<char>) -> Option<JsonValue>
    decreases fields.len(),
{
    if fields.len() == 0 {
        None
    } else if fields[0].0@ == key {
        Some(fields[0].1)
    } else {
        lookup(fields.drop_first(), key)
    }
}

/// The position of the first field named `key`, if any.
pub open spec fn field_index(fields: Seq<(String, JsonValue)>, key: Seq<char>) -> Option<int>
    decreases fields.len(),
{
    if fields.len() == 0 {
        None
    } else if fields[0].0@ == key {
        Some(0)
    } else {
        match field_index(fields.drop_first(), key) {
            Some(i) => Some(i + 1),
            None => None,
        }
    }
}

proof fn lemma_field_index(fields: Seq<(String, JsonValue)>, key: Seq<char>)
    ensures
        match field_index(fields, key) {
            Some(i) => {
                &&& 0 <= i < fields.len()
                &&& fields[i].0@ == key
                &&& forall|j: int| 0 <= j < i ==> fields[j].0@ != key
                &&& lookup(fields, key) == Some(fields[i].1)
            },
            None => {
                &&& forall|j: int| 0 <= j < fields.len() ==> fields[j].0@ != key
                &&& lookup(fields, key) is None
            },
        },
    decreases fields.len(),
{
    if fields.len() > 0 {
        lemma_field_index(fields.drop_first(), key);
        if fields[0].0@ != key {
            match field_index(fields.drop_first(), key) {
                Some(i) => {
                    assert forall|j: int| 0 <= j < i + 1 implies fields[j].0@ != key by {
                        if j > 0 {
                            assert(fields[j] == fields.drop_first()[j - 1]);
                        }
                    }
                },
                None => {
                    assert forall|j: int| 0 <= j < fields.len() implies fields[j].0@ != key by {
                        if j > 0 {
                            assert(fields[j] == fields.drop_first()[j - 1]);
                        }
                    }
                },
            }
        }
    }
}

/// Replacing the value of the field at `i` (whose name is `key`, the first with it) makes
/// `key` look up to the new value and leaves every other name as it was.
proof fn lemma_lookup_update(
    fields: Seq<(String, JsonValue)>,
    key: Seq<char>,
    i: int,
    name: String,
    v: JsonValue,
)
    requires
        field_index(fields, key) == Some(i),
        name@ == key,
    ensures
        0 <= i < fields.len(),
        lookup(fields.update(i, (name, v)), key) == Some(v),
        forall|other: Seq<char>|
            other != key ==> #[trigger] lookup(fields.update(i, (name, v)), other) == lookup(
                fields,
                other,
            ),
    decreases fields.len(),
{
    lemma_field_index(fields, key);
    let updated = fields.update(i, (name, v));
    if i == 0 {
        assert(updated.drop_first() =~= fields.drop_first());
        assert forall|other: Seq<char>| other != key implies #[trigger] lookup(updated, other)
            == lookup(fields, other) by {
            assert(updated[0].0@ == key);
            assert(fields[0].0@ == key);
        }
    } else {
        assert(fields[0].0@ != key);
        assert(field_index(fields.drop_first(), key) == Some(i - 1));
        lemma_lookup_update(fields.drop_first(), key, i - 1, name, v);
        assert(updated.drop_first() =~= fields.drop_first().update(i - 1, (name, v)));
        assert(updated[0] == fields[0]);
        assert forall|other: Seq<char>| other != key implies #[trigger] lookup(updated, other)
            == lookup(fields, other) by {
            if fields[0].0@ != other {
                assert(lookup(updated, other) == lookup(updated.drop_first(), other));
                assert(lookup(fields, other) == lookup(fields.drop_first(), other));
            }
        }
    }
}

/// Appending a field named `key` (absent so far) makes `key` look up to its value and
/// leaves every other name as it was.
proof fn lemma_lookup_push(fields: Seq<(String, JsonValue)>, key: Seq<char>, name: String, v: JsonValue)
    requires
        lookup(fields, key) is None,
        name@ == key,
    ensures
        lookup(fields.push((name, v)), key) == Some(v),
        forall|other: Seq<char>|
            other != key ==> #[trigger] lookup(fields.push((name, v)), other) == lookup(
                fields,
                other,
            ),
    decreases fields.len(),
{
    let pushed = fields.push((name, v));
    if fields.len() == 0 {
        assert(pushed.drop_first() =~= Seq::<(String, JsonValue)>::empty());
        assert forall|other: Seq<char>| other != key implies #[trigger] lookup(pushed, other)
            == lookup(fields, other) by {
            assert(lookup(pushed.drop_first(), other) is None);
        }
    } else {
        assert(fields[0].0@ != key);
        lemma_lookup_push(fields.drop_first(), key, name, v);
        assert(pushed.drop_first() =~= fields.drop_first().push((name, v)));
        assert(pushed[0] == fields[0]);
        assert forall|other: Seq<char>| other != key implies #[trigger] lookup(pushed, other)
            == lookup(fields, other) by {
            if fields[0].0@ != other {
                assert(lookup(pushed, other) == lookup(pushed.drop_first(), other));
                assert(lookup(fields, other) == lookup(fields.drop_first(), other));
            }
        }
    }
}

/// Sets the field `key` of an object to `v`: its value is replaced when the object has the
/// field, else the field is added at the end.
pub fn insert_field(fields: &mut Vec<(String, JsonValue)>, key: &str, v: JsonValue)
    ensures
        lookup(final(fields)@, key@) == Some(v),
        forall|other: Seq<char>|
            other != key@ ==> lookup(final(fields)@, other) == lookup(old(fields)@, other),
{
    proof {
        lemma_field_index(fields@, key@);
    }
    let mut i: usize = 0;
    while i < fields.len()
        invariant
            i <= fields@.len(),
            fields@ == old(fields)@,
            forall|j: int| 0 <= j < i ==> fields@[j].0@ != key@,
        decreases fields@.len() - i,
    {
        if str_eq(fields[i].0.as_str(), key) {
            proof {
                lemma_field_index(fields@, key@);
                match field_index(fields@, key@) {
                    Some(f) => {
                        if f < i {
                            assert(fields@[f].0@ != key@);
                        }
                        if f > i {
                            assert(fields@[i as int].0@ != key@);
                        }
                    },
                    None => {
                        assert(fields@[i as int].0@ != key@);
                    },
                }
                assert(field_index(fields@, key@) == Some(i as int));
            }
            let name = String::from_str(key);
            proof {
                lemma_lookup_update(fields@, key@, i as int, name, v);
            }
            fields.set(i, (name, v));
            return;
        }
        i = i + 1;
    }
    let name = String::from_str(key);
    proof {
        lemma_field_index(fields@, key@);
        if field_index(fields@, key@) is Some {
            let f = field_index(fields@, key@)->0;
            assert(fields@[f].0@ != key@);
        }
        lemma_lookup_push(fields@, key@, name, v);
    }
    fields.push((name, v));
}

/// A text field: the text, or `null` when absent.
pub fn optional_text(value: &Option<String>) -> (r: JsonValue)
    ensures
        match value {
            Some(t) => r matches JsonValue::Str(s) && s@ == t@,
            None => r is Null,
        },
{
    match value {
        Some(t) => JsonValue::Str(t.clone()),
        None => JsonValue::Null,
    }
}

/// A text field that is always written: the text, or empty when absent.
pub fn text_or_empty(value: &Option<String>) -> (r: JsonValue)
    ensures
        r matches JsonValue::Str(s) && s@ == match value {
            Some(t) => t@,
            None => Seq::<char>::empty(),
        },
{
    match value {
        Some(t) => JsonValue::Str(t.clone()),
        None => JsonValue::Str(String::new()),
    }
}

/// The tags as a JSON array of strings.
pub fn tags_array(tags: &Vec<String>) -> (r: JsonValue)
    ensures
        r matches JsonValue::Array(items) && items@.len() == tags@.len() && forall|i: int|
            0 <= i < tags@.len() ==> is_text(#[trigger] items@[i], tags@[i]@),
{
    let mut items: Vec<JsonValue> = Vec::new();
    let mut i: usize = 0;
    while i < tags.len()
        invariant
            i <= tags@.len(),
            items@.len() == i,
            forall|j: int|
                0 <= j < i ==> is_text(#[trigger] items@[j], tags@[j]@),
        decreases tags@.len() - i,
    {
        items.push(JsonValue::Str(tags[i].clone()));
        i = i + 1;
    }
    JsonValue::Array(items)
}

/// The parts of a card that are written as serialized data: its kind, lexical details,
/// occlusion (or `null`) and examples, each as its serialized JSON value.
pub struct CardJsonParts {
    pub kind: JsonValue,
    pub lexical: JsonValue,
    pub occlusion: JsonValue,
    pub examples: Vec<JsonValue>,
}

/// The names of the fields of a card object that the visual editor writes.
pub open spec fn synced_card_keys() -> Seq<Seq<char>> {
    seq![
        "kind"@,
        "term"@,
        "definition"@,
        "prompt"@,
        "answer"@,
        "term_lang"@,
        "def_lang"@,
        "notes"@,
        "lexical"@,
        "occlusion"@,
        "tags"@,
        "examples"@,
    ]
}

/// The names of the fields the visual editor writes are all different.
proof fn lemma_synced_keys_distinct()
    ensures
        forall|i: int, j: int|
            0 <= i < j < synced_card_keys().len() ==> synced_card_keys()[i]
                != synced_card_keys()[j],
{
    reveal_strlit("kind");
    reveal_strlit("term");
    reveal_strlit("definition");
    reveal_strlit("prompt");
    reveal_strlit("answer");
    reveal_strlit("term_lang");
    reveal_strlit("def_lang");
    reveal_strlit("notes");
    reveal_strlit("lexical");
    reveal_strlit("occlusion");
    reveal_strlit("tags");
    reveal_strlit("examples");
    let k = synced_card_keys();
    assert(k[0][0] != k[1][0]);
    assert(k[0].len() != k[2].len());
    assert(k[0].len() != k[3].len());
    assert(k[0].len() != k[4].len());
    assert(k[0].len() != k[5].len());
    assert(k[0].len() != k[6].len());
    assert(k[0].len() != k[7].len());
    assert(k[0].len() != k[8].len());
    assert(k[0].len() != k[9].len());
    assert(k[0][0] != k[10][0]);
    assert(k[0].len() != k[11].len());
    assert(k[1].len() != k[2].len());
    assert(k[1].len() != k[3].len());
    assert(k[1].len() != k[4].len());
    assert(k[1].len() != k[5].len());
    assert(k[1].len() != k[6].len());
    assert(k[1].len() != k[7].len());
    assert(k[1].len() != k[8].len());
    assert(k[1].len() != k[9].len());
    assert(k[1][1] != k[10][1]);
    assert(k[1].len() != k[11].len());
    assert(k[2].len() != k[3].len());
    assert(k[2].len() != k[4].len());
    assert(k[2].len() != k[5].len());
    assert(k[2].len() != k[6].len());
    assert(k[2].len() != k[7].len());
    assert(k[2].len() != k[8].len());
    assert(k[2].len() != k[9].len());
    assert(k[2].len() != k[10].len());
    assert(k[2].len() != k[11].len());
    assert(k[3][0] != k[4][0]);
    assert(k[3].len() != k[5].len());
    assert(k[3].len() != k[6].len());
    assert(k[3].len() != k[7].len());
    assert(k[3].len() != k[8].len());
    assert(k[3].len() != k[9].len());
    assert(k[3].len() != k[10].len());
    assert(k[3].len() != k[11].len());
    assert(k[4].len() != k[5].len());
    assert(k[4].len() != k[6].len());
    assert(k[4].len() != k[7].len());
    assert(k[4].len() != k[8].len());
    assert(k[4].len() != k[9].len());
    assert(k[4].len() != k[10].len());
    assert(k[4].len() != k[11].len());
    assert(k[5].len() != k[6].len());
    assert(k[5].len() != k[7].len());
    assert(k[5].len() != k[8].len());
    assert(k[5][0] != k[9][0]);
    assert(k[5].len() != k[10].len());
    assert(k[5].len() != k[11].len());
    assert(k[6].len() != k[7].len());
    assert(k[6].len() != k[8].len());
    assert(k[6].len() != k[9].len());
    assert(k[6].len() != k[10].len());
    assert(k[6][0] != k[11][0]);
    assert(k[7].len() != k[8].len());
    assert(k[7].len() != k[9].len());
    assert(k[7].len() != k[10].len());
    assert(k[7].len() != k[11].len());
    assert(k[8].len() != k[9].len());
    assert(k[8].len() != k[10].len());
    assert(k[8].len() != k[11].len());
    assert(k[9].len() != k[10].len());
    assert(k[9].len() != k[11].len());
    assert(k[10].len() != k[11].len());
    assert forall|i: int, j: int| 0 <= i < j < k.len() implies k[i] != k[j] by {
        if i == 0 && j == 1 {
            assert(k[0] != k[1]);
        }
        if i == 0 && j == 2 {
            assert(k[0] != k[2]);
        }
        if i == 0 && j == 3 {
            assert(k[0] != k[3]);
        }
        if i == 0 && j == 4 {
            assert(k[0] != k[4]);
        }
        if i == 0 && j == 5 {
            assert(k[0] != k[5]);
        }
        if i == 0 && j == 6 {
            assert(k[0] != k[6]);
        }
        if i == 0 && j == 7 {
            assert(k[0] != k[7]);
        }
        if i == 0 && j == 8 {
            assert(k[0] != k[8]);
        }
        if i == 0 && j == 9 {
            assert(k[0] != k[9]);
        }
        if i == 0 && j == 10 {
            assert(k[0] != k[10]);
        }
        if i == 0 && j == 11 {
            assert(k[0] != k[11]);
        }
        if i == 1 && j == 2 {
            assert(k[1] != k[2]);
        }
        if i == 1 && j == 3 {
            assert(k[1] != k[3]);
        }
        if i == 1 && j == 4 {
            assert(k[1] != k[4]);
        }
        if i == 1 && j == 5 {
            assert(k[1] != k[5]);
        }
        if i == 1 && j == 6 {
            assert(k[1] != k[6]);
        }
        if i == 1 && j == 7 {
            assert(k[1] != k[7]);
        }
        if i == 1 && j == 8 {
            assert(k[1] != k[8]);
        }
        if i == 1 && j == 9 {
            assert(k[1] != k[9]);
        }
        if i == 1 && j == 10 {
            assert(k[1] != k[10]);
        }
        if i == 1 && j == 11 {
            assert(k[1] != k[11]);
        }
        if i == 2 && j == 3 {
            assert(k[2] != k[3]);
        }
        if i == 2 && j == 4 {
            assert(k[2] != k[4]);
        }
        if i == 2 && j == 5 {
            assert(k[2] != k[5]);
        }
        if i == 2 && j == 6 {
            assert(k[2] != k[6]);
        }
        if i == 2 && j == 7 {
            assert(k[2] != k[7]);
        }
        if i == 2 && j == 8 {
            assert(k[2] != k[8]);
        }
        if i == 2 && j == 9 {
            assert(k[2] != k[9]);
        }
        if i == 2 && j == 10 {
            assert(k[2] != k[10]);
        }
        if i == 2 && j == 11 {
            assert(k[2] != k[11]);
        }
        if i == 3 && j == 4 {
            assert(k[3] != k[4]);
        }
        if i == 3 && j == 5 {
            assert(k[3] != k[5]);
        }
        if i == 3 && j == 6 {
            assert(k[3] != k[6]);
        }
        if i == 3 && j == 7 {
            assert(k[3] != k[7]);
        }
        if i == 3 && j == 8 {
            assert(k[3] != k[8]);
        }
        if i == 3 && j == 9 {
            assert(k[3] != k[9]);
        }
        if i == 3 && j == 10 {
            assert(k[3] != k[10]);
        }
        if i == 3 && j == 11 {
            assert(k[3] != k[11]);
        }
        if i == 4 && j == 5 {
            assert(k[4] != k[5]);
        }
        if i == 4 && j == 6 {
            assert(k[4] != k[6]);
        }
        if i == 4 && j == 7 {
            assert(k[4] != k[7]);
        }
        if i == 4 && j == 8 {
            assert(k[4] != k[8]);
        }
        if i == 4 && j == 9 {
            assert(k[4] != k[9]);
        }
        if i == 4 && j == 10 {
            assert(k[4] != k[10]);
        }
        if i == 4 && j == 11 {
            assert(k[4] != k[11]);
        }
        if i == 5 && j == 6 {
            assert(k[5] != k[6]);
        }
        if i == 5 && j == 7 {
            assert(k[5] != k[7]);
        }
        if i == 5 && j == 8 {
            assert(k[5] != k[8]);
        }
        if i == 5 && j == 9 {
            assert(k[5] != k[9]);
        }
        if i == 5 && j == 10 {
            assert(k[5] != k[10]);
        }
        if i == 5 && j == 11 {
            assert(k[5] != k[11]);
        }
        if i == 6 && j == 7 {
            assert(k[6] != k[7]);
        }
        if i == 6 && j == 8 {
            assert(k[6] != k[8]);
        }
        if i == 6 && j == 9 {
            assert(k[6] != k[9]);
        }
        if i == 6 && j == 10 {
            assert(k[6] != k[10]);
        }
        if i == 6 && j == 11 {
            assert(k[6] != k[11]);
        }
        if i == 7 && j == 8 {
            assert(k[7] != k[8]);
        }
        if i == 7 && j == 9 {
            assert(k[7] != k[9]);
        }
        if i == 7 && j == 10 {
            assert(k[7] != k[10]);
        }
        if i == 7 && j == 11 {
            assert(k[7] != k[11]);
        }
        if i == 8 && j == 9 {
            assert(k[8] != k[9]);
        }
        if i == 8 && j == 10 {
            assert(k[8] != k[10]);
        }
        if i == 8 && j == 11 {
            assert(k[8] != k[11]);
        }
        if i == 9 && j == 10 {
            assert(k[9] != k[10]);
        }
        if i == 9 && j == 11 {
            assert(k[9] != k[11]);
        }
        if i == 10 && j == 11 {
            assert(k[10] != k[11]);
        }
    }
}

/// `after` is the card object `before` with the visual editor's fields of `card` written
/// over it (serialized parts from `parts`), every other field as it was.
pub open spec fn card_fields_synced(
    before: Seq<(String, JsonValue)>,
    after: Seq<(String, JsonValue)>,
    card: Card,
    kind: JsonValue,
    lexical: JsonValue,
    occlusion: JsonValue,
    examples: Seq<JsonValue>,
) -> bool {
    &&& lookup(after, "kind"@) == Some(kind)
    &&& lookup(after, "term"@) matches Some(JsonValue::Str(s)) && s@ == match card.term {
        Some(t) => t@,
        None => Seq::<char>::empty(),
    }
    &&& lookup(after, "definition"@) matches Some(JsonValue::Str(s)) && s@ == match card.definition {
        Some(t) => t@,
        None => Seq::<char>::empty(),
    }
    &&& is_optional_text(lookup(after, "prompt"@), card.prompt)
    &&& is_optional_text(lookup(after, "answer"@), card.answer)
    &&& is_optional_text(lookup(after, "term_lang"@), card.term_lang)
    &&& is_optional_text(lookup(after, "def_lang"@), card.def_lang)
    &&& is_optional_text(lookup(after, "notes"@), card.notes)
    &&& lookup(after, "lexical"@) == Some(lexical)
    &&& lookup(after, "occlusion"@) == Some(occlusion)
    &&& lookup(after, "tags"@) matches Some(JsonValue::Array(items)) && items@.len()
        == card.tags@.len() && forall|i: int|
        0 <= i < card.tags@.len() ==> is_text(#[trigger] items@[i], card.tags@[i]@)
    &&& lookup(after, "examples"@) matches Some(JsonValue::Array(items)) && items@ == examples
    &&& forall|other: Seq<char>|
        !synced_card_keys().contains(other) ==> lookup(after, other) == lookup(before, other)
}

/// `v` is the JSON for an optional text field.
pub open spec fn is_optional_text(v: Option<JsonValue>, text: Option<String>) -> bool {
    match text {
        Some(t) => v matches Some(JsonValue::Str(s)) && s@ == t@,
        None => v == Some(JsonValue::Null),
    }
}

/// Writes the visual editor's fields of `card` into its object in the schema document:
/// kind, term and definition (empty when absent), prompt, answer, languages and notes
/// (`null` when absent), lexical details and occlusion as serialized, tags, and examples as
/// serialized. Other fields are kept.
pub fn sync_card_fields(card_obj: &mut Vec<(String, JsonValue)>, card: &Card, parts: CardJsonParts)
    ensures
        card_fields_synced(
            old(card_obj)@,
            final(card_obj)@,
            *card,
            parts.kind,
            parts.lexical,
            parts.occlusion,
            parts.examples@,
        ),
{
    let ghost kind = parts.kind;
    let ghost lexical = parts.lexical;
    let ghost occlusion = parts.occlusion;
    let ghost examples = parts.examples@;
    let ghost keys = synced_card_keys();
    proof {
        lemma_synced_keys_distinct();
        assert(keys[0] == "kind"@);
        assert(keys[1] == "term"@);
        assert(keys[2] == "definition"@);
        assert(keys[3] == "prompt"@);
        assert(keys[4] == "answer"@);
        assert(keys[5] == "term_lang"@);
        assert(keys[6] == "def_lang"@);
        assert(keys[7] == "notes"@);
        assert(keys[8] == "lexical"@);
        assert(keys[9] == "occlusion"@);
        assert(keys[10] == "tags"@);
        assert(keys[11] == "examples"@);
    }
    let ghost s0 = card_obj@;
    insert_field(card_obj, "kind", parts.kind);
    let ghost s1 = card_obj@;
    insert_field(card_obj, "term", text_or_empty(&card.term));
    let ghost s2 = card_obj@;
    insert_field(card_obj, "definition", text_or_empty(&card.definition));
    let ghost s3 = card_obj@;
    insert_field(card_obj, "prompt", optional_text(&card.prompt));
    let ghost s4 = card_obj@;
    insert_field(card_obj, "answer", optional_text(&card.answer));
    let ghost s5 = card_obj@;
    insert_field(card_obj, "term_lang", optional_text(&card.term_lang));
    let ghost s6 = card_obj@;
    insert_field(card_obj, "def_lang", optional_text(&card.def_lang));
    let ghost s7 = card_obj@;
    insert_field(card_obj, "notes", optional_text(&card.notes));
    let ghost s8 = card_obj@;
    insert_field(card_obj, "lexical", parts.lexical);
    let ghost s9 = card_obj@;
    insert_field(card_obj, "occlusion", parts.occlusion);
    let ghost s10 = card_obj@;
    insert_field(card_obj, "tags", tags_array(&card.tags));
    let ghost s11 = card_obj@;
    insert_field(card_obj, "examples", JsonValue::Array(parts.examples));
    let ghost s12 = card_obj@;
    proof {
        assert forall|other: Seq<char>| !keys.contains(other) implies lookup(s12, other) == lookup(
            s0,
            other,
        ) by {
            assert(keys[0] != other);
            assert(keys[1] != other);
            assert(keys[2] != other);
            assert(keys[3] != other);
            assert(keys[4] != other);
            assert(keys[5] != other);
            assert(keys[6] != other);
            assert(keys[7] != other);
            assert(keys[8] != other);
            assert(keys[9] != other);
            assert(keys[10] != other);
            assert(keys[11] != other);
        }
    }
}

/// Takes the value of the field `key` out of an object, leaving `null` in its place; the
/// other fields keep their values.
fn take_field(fields: &mut Vec<(String, JsonValue)>, key: &str) -> (r: Option<JsonValue>)
    ensures
        r == lookup(old(fields)@, key@),
        r is Some ==> lookup(final(fields)@, key@) == Some(JsonValue::Null),
        r is None ==> final(fields)@ == old(fields)@,
        forall|other: Seq<char>|
            other != key@ ==> lookup(final(fields)@, other) == lookup(old(fields)@, other),
{
    proof {
        lemma_field_index(fields@, key@);
    }
    let mut i: usize = 0;
    while i < fields.len()
        invariant
            i <= fields@.len(),
            fields@ == old(fields)@,
            forall|j: int| 0 <= j < i ==> fields@[j].0@ != key@,
        decreases fields@.len() - i,
    {
        if str_eq(fields[i].0.as_str(), key) {
            proof {
                lemma_field_index(fields@, key@);
                match field_index(fields@, key@) {
                    Some(f) => {
                        if f < i {
                            assert(fields@[f].0@ != key@);
                        }
                        if f > i {
                            assert(fields@[i as int].0@ != key@);
                        }
                    },
                    None => {
                        assert(fields@[i as int].0@ != key@);
                    },
                }
            }
            let (name, value) = fields.remove(i);
            proof {
                lemma_lookup_update(old(fields)@, key@, i as int, name, JsonValue::Null);
                assert(fields@.insert(i as int, (name, JsonValue::Null)) =~= old(fields)@.update(
                    i as int,
                    (name, JsonValue::Null),
                ));
            }
            fields.insert(i, (name, JsonValue::Null));
            return Some(value);
        }
        i = i + 1;
    }
    proof {
        match field_index(fields@, key@) {
            Some(f) => {
                assert(fields@[f].0@ != key@);
            },
            None => {},
        }
    }
    None
}

/// The object of card `index` in a schema document: the document's `cards` array's item at
/// `index`, when the document is an object with such an array and that item is an object.
pub open spec fn card_object(doc: JsonValue, index: int) -> Option<Seq<(String, JsonValue)>> {
    match doc {
        JsonValue::Object(fields) => match lookup(fields@, "cards"@) {
            Some(JsonValue::Array(cards)) => if 0 <= index < cards@.len() {
                match cards@[index] {
                    JsonValue::Object(o) => Some(o@),
                    _ => None,
                }
            } else {
                None
            },
            _ => None,
        },
        _ => None,
    }
}

/// The document is an object whose field `cf` holds an array with an item at `index`.
pub open spec fn slot_ok(doc: JsonValue, cf: int, index: int) -> bool {
    &&& doc is Object
    &&& 0 <= cf < doc->Object_0@.len()
    &&& doc->Object_0@[cf].1 is Array
    &&& 0 <= index < doc->Object_0@[cf].1->Array_0@.len()
}

/// The item at `index` of the array in field `cf`.
pub open spec fn slot_value(doc: JsonValue, cf: int, index: int) -> JsonValue {
    doc->Object_0@[cf].1->Array_0@[index]
}

/// `before` and `after` agree but perhaps for the item at `index` of the array in field
/// `cf`.
pub open spec fn same_but_slot(before: JsonValue, after: JsonValue, cf: int, index: int) -> bool {
    let f0 = before->Object_0@;
    let f1 = after->Object_0@;
    let c0 = f0[cf].1->Array_0@;
    let c1 = f1[cf].1->Array_0@;
    &&& slot_ok(before, cf, index)
    &&& slot_ok(after, cf, index)
    &&& f1.len() == f0.len()
    &&& forall|j: int| 0 <= j < f0.len() && j != cf ==> f1[j] == f0[j]
    &&& f1[cf].0 == f0[cf].0
    &&& c1.len() == c0.len()
    &&& forall|k: int| 0 <= k < c0.len() && k != index ==> c1[k] == c0[k]
}

/// `after` is `before` with the object of card `index` replaced by one with the fields
/// `obj`; everything else in the document is as it was.
pub open spec fn card_object_replaced(
    before: JsonValue,
    after: JsonValue,
    index: int,
    obj: Seq<(String, JsonValue)>,
) -> bool {
    &&& before is Object
    &&& field_index(before->Object_0@, "cards"@) matches Some(cf)
    &&& same_but_slot(before, after, cf, index)
    &&& slot_value(after, cf, index) matches JsonValue::Object(o)
    &&& o@ == obj
}

proof fn lemma_card_object_at(doc: JsonValue, cf: int, index: int)
    requires
        doc is Object,
        field_index(doc->Object_0@, "cards"@) == Some(cf),
    ensures
        card_object(doc, index) == (if slot_ok(doc, cf, index) && slot_value(doc, cf, index) is Object {
            Some(slot_value(doc, cf, index)->Object_0@)
        } else {
            None
        }),
{
    lemma_field_index(doc->Object_0@, "cards"@);
}

/// Takes the object of card `index` out of the document (leaving `null` in the array), when
/// there is one; answers where it was (the position of the `cards` field) and its fields.
fn take_card_object(doc: &mut JsonValue, index: usize) -> (r: Option<(usize, Vec<(String, JsonValue)>)>)
    ensures
        match r {
            Some((cf, obj)) => {
                &&& card_object(*old(doc), index as int) == Some(obj@)
                &&& *old(doc) is Object
                &&& field_index(old(doc)->Object_0@, "cards"@) == Some(cf as int)
                &&& same_but_slot(*old(doc), *final(doc), cf as int, index as int)
            },
            None => {
                &&& card_object(*old(doc), index as int) is None
                &&& *final(doc) == *old(doc)
            },
        },
{
    match doc {
        JsonValue::Object(fields) => {
            proof {
                lemma_field_index(fields@, "cards"@);
                assert(old(doc)->Object_0@ == fields@);
            }
            let mut i: usize = 0;
            while i < fields.len()
                invariant
                    i <= fields@.len(),
                    forall|j: int| 0 <= j < i ==> fields@[j].0@ != "cards"@,
                ensures
                    i <= fields@.len(),
                    forall|j: int| 0 <= j < i ==> fields@[j].0@ != "cards"@,
                    i < fields@.len() ==> fields@[i as int].0@ == "cards"@,
                decreases fields@.len() - i,
            {
                if str_eq(fields[i].0.as_str(), "cards") {
                    break;
                }
                i = i + 1;
            }
            if i == fields.len() {
                proof {
                    match field_index(fields@, "cards"@) {
                        Some(f) => {
                            assert(fields@[f].0@ != "cards"@);
                        },
                        None => {},
                    }
                }
                return None;
            }
            proof {
                match field_index(fields@, "cards"@) {
                    Some(f) => {
                        if f < i {
                            assert(fields@[f].0@ != "cards"@);
                        }
                        if f > i {
                            assert(fields@[i as int].0@ != "cards"@);
                        }
                    },
                    None => {
                        assert(fields@[i as int].0@ != "cards"@);
                    },
                }
                lemma_card_object_at(*old(doc), i as int, index as int);
            }
            let is_card_object = match &fields[i].1 {
                JsonValue::Array(cards) => index < cards.len() && match &cards[index] {
                    JsonValue::Object(_) => true,
                    _ => false,
                },
                _ => false,
            };
            if !is_card_object {
                return None;
            }
            let ghost f0 = fields@;
            let (name, value) = fields.remove(i);
            match value {
                JsonValue::Array(mut cards) => {
                    let ghost c0 = cards@;
                    let item = cards.remove(index);
                    match item {
                        JsonValue::Object(obj) => {
                            cards.insert(index, JsonValue::Null);
                            proof {
                                assert forall|k: int| 0 <= k < c0.len() && k != index implies cards@[k]
                                    == c0[k] by {
                                    if k < index {
                                    } else {
                                    }
                                }
                            }
                            fields.insert(i, (name, JsonValue::Array(cards)));
                            proof {
                                assert forall|j: int| 0 <= j < f0.len() && j != i implies fields@[j]
                                    == f0[j] by {
                                    if j < i {
                                    } else {
                                    }
                                }
                            }
                            Some((i, obj))
                        },
                        _ => {
                            proof {
                                assert(false);
                            }
                            None
                        },
                    }
                },
                _ => {
                    proof {
                        assert(false);
                    }
                    None
                },
            }
        },
        _ => None,
    }
}

/// Puts a card object into the item at `index` of the array in field `cf`.
fn put_card_object(doc: &mut JsonValue, cf: usize, index: usize, obj: Vec<(String, JsonValue)>)
    requires
        slot_ok(*old(doc), cf as int, index as int),
    ensures
        same_but_slot(*old(doc), *final(doc), cf as int, index as int),
        slot_value(*final(doc), cf as int, index as int) matches JsonValue::Object(o) && o@ == obj@,
{
    match doc {
        JsonValue::Object(fields) => {
            let ghost f0 = fields@;
            let (name, value) = fields.remove(cf);
            match value {
                JsonValue::Array(mut cards) => {
                    let ghost c0 = cards@;
                    let _ = cards.remove(index);
                    cards.insert(index, JsonValue::Object(obj));
                    proof {
                        assert forall|k: int| 0 <= k < c0.len() && k != index implies cards@[k]
                            == c0[k] by {
                            if k < index {
                            } else {
                            }
                        }
                    }
                    fields.insert(cf, (name, JsonValue::Array(cards)));
                    proof {
                        assert forall|j: int| 0 <= j < f0.len() && j != cf implies fields@[j]
                            == f0[j] by {
                            if j < cf {
                            } else {
                            }
                        }
                    }
                },
                _ => {
                    fields.insert(cf, (name, JsonValue::Null));
                },
            }
        },
        _ => {},
    }
}

proof fn lemma_field_index_same_names(
    f0: Seq<(String, JsonValue)>,
    f1: Seq<(String, JsonValue)>,
    key: Seq<char>,
)
    requires
        f0.len() == f1.len(),
        forall|j: int| 0 <= j < f0.len() ==> #[trigger] f1[j].0 == f0[j].0,
    ensures
        field_index(f1, key) == field_index(f0, key),
    decreases f0.len(),
{
    if f0.len() > 0 {
        assert forall|j: int| 0 <= j < f0.drop_first().len() implies #[trigger] f1.drop_first()[j].0
            == f0.drop_first()[j].0 by {
            assert(f1.drop_first()[j] == f1[j + 1]);
            assert(f0.drop_first()[j] == f0[j + 1]);
        }
        lemma_field_index_same_names(f0.drop_first(), f1.drop_first(), key);
        assert(f1[0].0 == f0[0].0);
    }
}

/// Writes the visual editor's fields of `card` (see `sync_card_fields`) into the object of
/// card `index` in the schema document, when the document has one. Answers whether it did;
/// nothing else in the document changes.
pub fn sync_card_into_document(doc: &mut JsonValue, index: usize, card: &Card, parts: CardJsonParts) -> (synced: bool)
    ensures
        synced == card_object(*old(doc), index as int) is Some,
        !synced ==> *final(doc) == *old(doc),
        synced ==> {
            &&& card_object(*final(doc), index as int) is Some
            &&& card_object_replaced(
                *old(doc),
                *final(doc),
                index as int,
                card_object(*final(doc), index as int)->0,
            )
            &&& card_fields_synced(
                card_object(*old(doc), index as int)->0,
                card_object(*final(doc), index as int)->0,
                *card,
                parts.kind,
                parts.lexical,
                parts.occlusion,
                parts.examples@,
            )
        },
{
    match take_card_object(doc, index) {
        Some((cf, mut obj)) => {
            let ghost mid = *doc;
            let ghost o0 = obj@;
            sync_card_fields(&mut obj, card, parts);
            let ghost o1 = obj@;
            put_card_object(doc, cf, index, obj);
            proof {
                let f0 = old(doc)->Object_0@;
                let f1 = doc->Object_0@;
                assert forall|j: int| 0 <= j < f0.len() implies #[trigger] f1[j].0 == f0[j].0 by {
                    if j != cf {
                        assert(mid->Object_0@[j] == f0[j]);
                    }
                }
                lemma_field_index_same_names(f0, f1, "cards"@);
                lemma_card_object_at(*doc, cf as int, index as int);
                assert(same_but_slot(*old(doc), *doc, cf as int, index as int)) by {
                    let c0 = f0[cf as int].1->Array_0@;
                    let cm = mid->Object_0@[cf as int].1->Array_0@;
                    let c1 = f1[cf as int].1->Array_0@;
                    assert forall|k: int| 0 <= k < c0.len() && k != index implies c1[k] == c0[k] by {
                        assert(cm[k] == c0[k]);
                    }
                    assert forall|j: int| 0 <= j < f0.len() && j != cf implies f1[j] == f0[j] by {
                        assert(mid->Object_0@[j] == f0[j]);
                    }
                }
            }
            true
        },
        None => false,
    }
}

/// The field names of an image media object.
pub open spec fn image_media_keys() -> Seq<Seq<char>> {
    seq!["id"@, "src"@, "type"@, "role"@, "alt"@]
}

proof fn lemma_image_media_keys_distinct()
    ensures
        forall|i: int, j: int|
            0 <= i < j < image_media_keys().len() ==> image_media_keys()[i]
                != image_media_keys()[j],
{
    reveal_strlit("id");
    reveal_strlit("src");
    reveal_strlit("type");
    reveal_strlit("role");
    reveal_strlit("alt");
    let k = image_media_keys();
    assert(k[0].len() != k[1].len());
    assert(k[0].len() != k[2].len());
    assert(k[0].len() != k[3].len());
    assert(k[0].len() != k[4].len());
    assert(k[1].len() != k[2].len());
    assert(k[1].len() != k[3].len());
    assert(k[1][0] != k[4][0]);
    assert(k[2][0] != k[3][0]);
    assert(k[2].len() != k[4].len());
    assert(k[3].len() != k[4].len());
    assert forall|i: int, j: int| 0 <= i < j < k.len() implies k[i] != k[j] by {
        if i == 0 && j == 1 {
            assert(k[0] != k[1]);
        }
        if i == 0 && j == 2 {
            assert(k[0] != k[2]);
        }
        if i == 0 && j == 3 {
            assert(k[0] != k[3]);
        }
        if i == 0 && j == 4 {
            assert(k[0] != k[4]);
        }
        if i == 1 && j == 2 {
            assert(k[1] != k[2]);
        }
        if i == 1 && j == 3 {
            assert(k[1] != k[3]);
        }
        if i == 1 && j == 4 {
            assert(k[1] != k[4]);
        }
        if i == 2 && j == 3 {
            assert(k[2] != k[3]);
        }
        if i == 2 && j == 4 {
            assert(k[2] != k[4]);
        }
        if i == 3 && j == 4 {
            assert(k[3] != k[4]);
        }
    }
}

/// The `alt` of the first media object of a card object, if it has one.
pub open spec fn first_media_alt(obj: Seq<(String, JsonValue)>) -> Option<JsonValue> {
    match lookup(obj, "media"@) {
        Some(JsonValue::Array(items)) => if items@.len() > 0 {
            match items@[0] {
                JsonValue::Object(m) => lookup(m@, "alt"@),
                _ => None,
            }
        } else {
            None
        },
        _ => None,
    }
}

/// `v` is the media object for the illustration at `path`, with `alt` kept.
pub open spec fn is_image_media(v: JsonValue, path: Seq<char>, alt: Option<JsonValue>) -> bool {
    &&& v is Object
    &&& lookup(v->Object_0@, "id"@) == Some(JsonValue::Null)
    &&& lookup(v->Object_0@, "src"@) matches Some(s) && is_text(s, path)
    &&& lookup(v->Object_0@, "type"@) matches Some(t) && is_text(t, "image"@)
    &&& lookup(v->Object_0@, "role"@) matches Some(r) && is_text(r, "illustration"@)
    &&& lookup(v->Object_0@, "alt"@) == alt
    &&& forall|other: Seq<char>|
        !image_media_keys().contains(other) ==> lookup(v->Object_0@, other) is None
}

/// `after` is the card object `before` whose media is just the illustration at `path`,
/// keeping the `alt` of its first media; every other field is as it was.
pub open spec fn image_media_set(
    before: Seq<(String, JsonValue)>,
    after: Seq<(String, JsonValue)>,
    path: Seq<char>,
) -> bool {
    &&& lookup(after, "media"@) matches Some(JsonValue::Array(items))
    &&& items@.len() == 1
    &&& is_image_media(items@[0], path, first_media_alt(before))
    &&& forall|other: Seq<char>| other != "media"@ ==> lookup(after, other) == lookup(before, other)
}

fn take_first_media_alt(card_obj: &mut Vec<(String, JsonValue)>) -> (alt: Option<JsonValue>)
    ensures
        alt == first_media_alt(old(card_obj)@),
        forall|other: Seq<char>|
            other != "media"@ ==> lookup(final(card_obj)@, other) == lookup(old(card_obj)@, other),
{
    let media = take_field(card_obj, "media");
    match media {
        Some(JsonValue::Array(mut items)) => {
            if items.len() > 0 {
                let first = items.remove(0);
                match first {
                    JsonValue::Object(mut m) => take_field(&mut m, "alt"),
                    _ => None,
                }
            } else {
                None
            }
        },
        _ => None,
    }
}

/// Replaces a card object's media by the single illustration at `path`, keeping the `alt`
/// of its first media object.
pub fn set_image_media(card_obj: &mut Vec<(String, JsonValue)>, path: String)
    ensures
        image_media_set(old(card_obj)@, final(card_obj)@, path@),
{
    let ghost p = path@;
    let alt = take_first_media_alt(card_obj);
    let ghost keys = image_media_keys();
    proof {
        lemma_image_media_keys_distinct();
        assert(keys[0] == "id"@);
        assert(keys[1] == "src"@);
        assert(keys[2] == "type"@);
        assert(keys[3] == "role"@);
        assert(keys[4] == "alt"@);
    }
    let mut m: Vec<(String, JsonValue)> = Vec::new();
    let ghost m0 = m@;
    insert_field(&mut m, "id", JsonValue::Null);
    insert_field(&mut m, "src", JsonValue::Str(path));
    insert_field(&mut m, "type", JsonValue::Str(String::from_str("image")));
    insert_field(&mut m, "role", JsonValue::Str(String::from_str("illustration")));
    let ghost m4 = m@;
    match alt {
        Some(a) => {
            insert_field(&mut m, "alt", a);
        },
        None => {
            proof {
                assert(lookup(m0, "alt"@) is None);
            }
        },
    }
    proof {
        assert forall|other: Seq<char>| !keys.contains(other) implies lookup(m@, other) is None by {
            assert(keys[0] != other);
            assert(keys[1] != other);
            assert(keys[2] != other);
            assert(keys[3] != other);
            assert(keys[4] != other);
            assert(lookup(m0, other) is None);
        }
    }
    let mut items: Vec<JsonValue> = Vec::new();
    items.push(JsonValue::Object(m));
    insert_field(card_obj, "media", JsonValue::Array(items));
}

/// Makes the illustration at `path` the only media of card `index` in the schema document
/// (see `set_image_media`), when the document has that card's object. Answers whether it
/// did; nothing else in the document changes.
pub fn set_card_image_in_document(doc: &mut JsonValue, index: usize, path: String) -> (done: bool)
    ensures
        done == card_object(*old(doc), index as int) is Some,
        !done ==> *final(doc) == *old(doc),
        done ==> {
            &&& card_object(*final(doc), index as int) is Some
            &&& card_object_replaced(
                *old(doc),
                *final(doc),
                index as int,
                card_object(*final(doc), index as int)->0,
            )
            &&& image_media_set(
                card_object(*old(doc), index as int)->0,
                card_object(*final(doc), index as int)->0,
                path@,
            )
        },
{
    match take_card_object(doc, index) {
        Some((cf, mut obj)) => {
            let ghost mid = *doc;
            set_image_media(&mut obj, path);
            put_card_object(doc, cf, index, obj);
            proof {
                let f0 = old(doc)->Object_0@;
                let f1 = doc->Object_0@;
                assert forall|j: int| 0 <= j < f0.len() implies #[trigger] f1[j].0 == f0[j].0 by {
                    if j != cf {
                        assert(mid->Object_0@[j] == f0[j]);
                    }
                }
                lemma_field_index_same_names(f0, f1, "cards"@);
                lemma_card_object_at(*doc, cf as int, index as int);
                assert(same_but_slot(*old(doc), *doc, cf as int, index as int)) by {
                    let c0 = f0[cf as int].1->Array_0@;
                    let cm = mid->Object_0@[cf as int].1->Array_0@;
                    let c1 = f1[cf as int].1->Array_0@;
                    assert forall|k: int| 0 <= k < c0.len() && k != index implies c1[k] == c0[k] by {
                        assert(cm[k] == c0[k]);
                    }
                    assert forall|j: int| 0 <= j < f0.len() && j != cf implies f1[j] == f0[j] by {
                        assert(mid->Object_0@[j] == f0[j]);
                    }
                }
            }
            true
        },
        None => false,
    }
}

/// The field names of a new card's object.
pub open spec fn new_card_keys() -> Seq<Seq<char>> {
    seq!["id"@, "kind"@, "term"@, "definition"@, "prompt"@, "answer"@, "term_lang"@, "def_lang"@, "lexical"@, "notes"@, "media"@, "tags"@, "examples"@, "occlusion"@]
}

proof fn lemma_new_card_keys_distinct()
    ensures
        forall|i: int, j: int|
            0 <= i < j < new_card_keys().len() ==> new_card_keys()[i] != new_card_keys()[j],
{
    reveal_strlit("id");
    reveal_strlit("kind");
    reveal_strlit("term");
    reveal_strlit("definition");
    reveal_strlit("prompt");
    reveal_strlit("answer");
    reveal_strlit("term_lang");
    reveal_strlit("def_lang");
    reveal_strlit("lexical");
    reveal_strlit("notes");
    reveal_strlit("media");
    reveal_strlit("tags");
    reveal_strlit("examples");
    reveal_strlit("occlusion");
    let k = new_card_keys();
    assert(k[0].len() != k[1].len());
    assert(k[0].len() != k[2].len());
    assert(k[0].len() != k[3].len());
    assert(k[0].len() != k[4].len());
    assert(k[0].len() != k[5].len());
    assert(k[0].len() != k[6].len());
    assert(k[0].len() != k[7].len());
    assert(k[0].len() != k[8].len());
    assert(k[0].len() != k[9].len());
    assert(k[0].len() != k[10].len());
    assert(k[0].len() != k[11].len());
    assert(k[0].len() != k[12].len());
    assert(k[0].len() != k[13].len());
    assert(k[1][0] != k[2][0]);
    assert(k[1].len() != k[3].len());
    assert(k[1].len() != k[4].len());
    assert(k[1].len() != k[5].len());
    assert(k[1].len() != k[6].len());
    assert(k[1].len() != k[7].len());
    assert(k[1].len() != k[8].len());
    assert(k[1].len() != k[9].len());
    assert(k[1].len() != k[10].len());
    assert(k[1][0] != k[11][0]);
    assert(k[1].len() != k[12].len());
    assert(k[1].len() != k[13].len());
    assert(k[2].len() != k[3].len());
    assert(k[2].len() != k[4].len());
    assert(k[2].len() != k[5].len());
    assert(k[2].len() != k[6].len());
    assert(k[2].len() != k[7].len());
    assert(k[2].len() != k[8].len());
    assert(k[2].len() != k[9].len());
    assert(k[2].len() != k[10].len());
    assert(k[2][1] != k[11][1]);
    assert(k[2].len() != k[12].len());
    assert(k[2].len() != k[13].len());
    assert(k[3].len() != k[4].len());
    assert(k[3].len() != k[5].len());
    assert(k[3].len() != k[6].len());
    assert(k[3].len() != k[7].len());
    assert(k[3].len() != k[8].len());
    assert(k[3].len() != k[9].len());
    assert(k[3].len() != k[10].len());
    assert(k[3].len() != k[11].len());
    assert(k[3].len() != k[12].len());
    assert(k[3].len() != k[13].len());
    assert(k[4][0] != k[5][0]);
    assert(k[4].len() != k[6].len());
    assert(k[4].len() != k[7].len());
    assert(k[4].len() != k[8].len());
    assert(k[4].len() != k[9].len());
    assert(k[4].len() != k[10].len());
    assert(k[4].len() != k[11].len());
    assert(k[4].len() != k[12].len());
    assert(k[4].len() != k[13].len());
    assert(k[5].len() != k[6].len());
    assert(k[5].len() != k[7].len());
    assert(k[5].len() != k[8].len());
    assert(k[5].len() != k[9].len());
    assert(k[5].len() != k[10].len());
    assert(k[5].len() != k[11].len());
    assert(k[5].len() != k[12].len());
    assert(k[5].len() != k[13].len());
    assert(k[6].len() != k[7].len());
    assert(k[6].len() != k[8].len());
    assert(k[6].len() != k[9].len());
    assert(k[6].len() != k[10].len());
    assert(k[6].len() != k[11].len());
    assert(k[6].len() != k[12].len());
    assert(k[6][0] != k[13][0]);
    assert(k[7].len() != k[8].len());
    assert(k[7].len() != k[9].len());
    assert(k[7].len() != k[10].len());
    assert(k[7].len() != k[11].len());
    assert(k[7][0] != k[12][0]);
    assert(k[7].len() != k[13].len());
    assert(k[8].len() != k[9].len());
    assert(k[8].len() != k[10].len());
    assert(k[8].len() != k[11].len());
    assert(k[8].len() != k[12].len());
    assert(k[8].len() != k[13].len());
    assert(k[9][0] != k[10][0]);
    assert(k[9].len() != k[11].len());
    assert(k[9].len() != k[12].len());
    assert(k[9].len() != k[13].len());
    assert(k[10].len() != k[11].len());
    assert(k[10].len() != k[12].len());
    assert(k[10].len() != k[13].len());
    assert(k[11].len() != k[12].len());
    assert(k[11].len() != k[13].len());
    assert(k[12].len() != k[13].len());
    assert forall|i: int, j: int| 0 <= i < j < k.len() implies k[i] != k[j] by {
        if i == 0 && j == 1 {
            assert(k[0] != k[1]);
        }
        if i == 0 && j == 2 {
            assert(k[0] != k[2]);
        }
        if i == 0 && j == 3 {
            assert(k[0] != k[3]);
        }
        if i == 0 && j == 4 {
            assert(k[0] != k[4]);
        }
        if i == 0 && j == 5 {
            assert(k[0] != k[5]);
        }
        if i == 0 && j == 6 {
            assert(k[0] != k[6]);
        }
        if i == 0 && j == 7 {
            assert(k[0] != k[7]);
        }
        if i == 0 && j == 8 {
            assert(k[0] != k[8]);
        }
        if i == 0 && j == 9 {
            assert(k[0] != k[9]);
        }
        if i == 0 && j == 10 {
            assert(k[0] != k[10]);
        }
        if i == 0 && j == 11 {
            assert(k[0] != k[11]);
        }
        if i == 0 && j == 12 {
            assert(k[0] != k[12]);
        }
        if i == 0 && j == 13 {
            assert(k[0] != k[13]);
        }
        if i == 1 && j == 2 {
            assert(k[1] != k[2]);
        }
        if i == 1 && j == 3 {
            assert(k[1] != k[3]);
        }
        if i == 1 && j == 4 {
            assert(k[1] != k[4]);
        }
        if i == 1 && j == 5 {
            assert(k[1] != k[5]);
        }
        if i == 1 && j == 6 {
            assert(k[1] != k[6]);
        }
        if i == 1 && j == 7 {
            assert(k[1] != k[7]);
        }
        if i == 1 && j == 8 {
            assert(k[1] != k[8]);
        }
        if i == 1 && j == 9 {
            assert(k[1] != k[9]);
        }
        if i == 1 && j == 10 {
            assert(k[1] != k[10]);
        }
        if i == 1 && j == 11 {
            assert(k[1] != k[11]);
        }
        if i == 1 && j == 12 {
            assert(k[1] != k[12]);
        }
        if i == 1 && j == 13 {
            assert(k[1] != k[13]);
        }
        if i == 2 && j == 3 {
            assert(k[2] != k[3]);
        }
        if i == 2 && j == 4 {
            assert(k[2] != k[4]);
        }
        if i == 2 && j == 5 {
            assert(k[2] != k[5]);
        }
        if i == 2 && j == 6 {
            assert(k[2] != k[6]);
        }
        if i == 2 && j == 7 {
            assert(k[2] != k[7]);
        }
        if i == 2 && j == 8 {
            assert(k[2] != k[8]);
        }
        if i == 2 && j == 9 {
            assert(k[2] != k[9]);
        }
        if i == 2 && j == 10 {
            assert(k[2] != k[10]);
        }
        if i == 2 && j == 11 {
            assert(k[2] != k[11]);
        }
        if i == 2 && j == 12 {
            assert(k[2] != k[12]);
        }
        if i == 2 && j == 13 {
            assert(k[2] != k[13]);
        }
        if i == 3 && j == 4 {
            assert(k[3] != k[4]);
        }
        if i == 3 && j == 5 {
            assert(k[3] != k[5]);
        }
        if i == 3 && j == 6 {
            assert(k[3] != k[6]);
        }
        if i == 3 && j == 7 {
            assert(k[3] != k[7]);
        }
        if i == 3 && j == 8 {
            assert(k[3] != k[8]);
        }
        if i == 3 && j == 9 {
            assert(k[3] != k[9]);
        }
        if i == 3 && j == 10 {
            assert(k[3] != k[10]);
        }
        if i == 3 && j == 11 {
            assert(k[3] != k[11]);
        }
        if i == 3 && j == 12 {
            assert(k[3] != k[12]);
        }
        if i == 3 && j == 13 {
            assert(k[3] != k[13]);
        }
        if i == 4 && j == 5 {
            assert(k[4] != k[5]);
        }
        if i == 4 && j == 6 {
            assert(k[4] != k[6]);
        }
        if i == 4 && j == 7 {
            assert(k[4] != k[7]);
        }
        if i == 4 && j == 8 {
            assert(k[4] != k[8]);
        }
        if i == 4 && j == 9 {
            assert(k[4] != k[9]);
        }
        if i == 4 && j == 10 {
            assert(k[4] != k[10]);
        }
        if i == 4 && j == 11 {
            assert(k[4] != k[11]);
        }
        if i == 4 && j == 12 {
            assert(k[4] != k[12]);
        }
        if i == 4 && j == 13 {
            assert(k[4] != k[13]);
        }
        if i == 5 && j == 6 {
            assert(k[5] != k[6]);
        }
        if i == 5 && j == 7 {
            assert(k[5] != k[7]);
        }
        if i == 5 && j == 8 {
            assert(k[5] != k[8]);
        }
        if i == 5 && j == 9 {
            assert(k[5] != k[9]);
        }
        if i == 5 && j == 10 {
            assert(k[5] != k[10]);
        }
        if i == 5 && j == 11 {
            assert(k[5] != k[11]);
        }
        if i == 5 && j == 12 {
            assert(k[5] != k[12]);
        }
        if i == 5 && j == 13 {
            assert(k[5] != k[13]);
        }
        if i == 6 && j == 7 {
            assert(k[6] != k[7]);
        }
        if i == 6 && j == 8 {
            assert(k[6] != k[8]);
        }
        if i == 6 && j == 9 {
            assert(k[6] != k[9]);
        }
        if i == 6 && j == 10 {
            assert(k[6] != k[10]);
        }
        if i == 6 && j == 11 {
            assert(k[6] != k[11]);
        }
        if i == 6 && j == 12 {
            assert(k[6] != k[12]);
        }
        if i == 6 && j == 13 {
            assert(k[6] != k[13]);
        }
        if i == 7 && j == 8 {
            assert(k[7] != k[8]);
        }
        if i == 7 && j == 9 {
            assert(k[7] != k[9]);
        }
        if i == 7 && j == 10 {
            assert(k[7] != k[10]);
        }
        if i == 7 && j == 11 {
            assert(k[7] != k[11]);
        }
        if i == 7 && j == 12 {
            assert(k[7] != k[12]);
        }
        if i == 7 && j == 13 {
            assert(k[7] != k[13]);
        }
        if i == 8 && j == 9 {
            assert(k[8] != k[9]);
        }
        if i == 8 && j == 10 {
            assert(k[8] != k[10]);
        }
        if i == 8 && j == 11 {
            assert(k[8] != k[11]);
        }
        if i == 8 && j == 12 {
            assert(k[8] != k[12]);
        }
        if i == 8 && j == 13 {
            assert(k[8] != k[13]);
        }
        if i == 9 && j == 10 {
            assert(k[9] != k[10]);
        }
        if i == 9 && j == 11 {
            assert(k[9] != k[11]);
        }
        if i == 9 && j == 12 {
            assert(k[9] != k[12]);
        }
        if i == 9 && j == 13 {
            assert(k[9] != k[13]);
        }
        if i == 10 && j == 11 {
            assert(k[10] != k[11]);
        }
        if i == 10 && j == 12 {
            assert(k[10] != k[12]);
        }
        if i == 10 && j == 13 {
            assert(k[10] != k[13]);
        }
        if i == 11 && j == 12 {
            assert(k[11] != k[12]);
        }
        if i == 11 && j == 13 {
            assert(k[11] != k[13]);
        }
        if i == 12 && j == 13 {
            assert(k[12] != k[13]);
        }
    }
}

/// `v` is the object of a new blank basic card with id `id`: empty term and definition,
/// empty media, tags and examples, and `null` for every other field.
pub open spec fn is_new_card_object(v: JsonValue, id: Seq<char>) -> bool {
    let o = v->Object_0@;
    &&& v is Object
    &&& lookup(o, "id"@) matches Some(v) && is_text(v, id)
    &&& lookup(o, "kind"@) matches Some(v) && is_text(v, "basic"@)
    &&& lookup(o, "term"@) matches Some(v) && is_text(v, Seq::<char>::empty())
    &&& lookup(o, "definition"@) matches Some(v) && is_text(v, Seq::<char>::empty())
    &&& lookup(o, "prompt"@) == Some(JsonValue::Null)
    &&& lookup(o, "answer"@) == Some(JsonValue::Null)
    &&& lookup(o, "term_lang"@) == Some(JsonValue::Null)
    &&& lookup(o, "def_lang"@) == Some(JsonValue::Null)
    &&& lookup(o, "lexical"@) == Some(JsonValue::Null)
    &&& lookup(o, "notes"@) == Some(JsonValue::Null)
    &&& lookup(o, "media"@) matches Some(JsonValue::Array(items)) && items@.len() == 0
    &&& lookup(o, "tags"@) matches Some(JsonValue::Array(items)) && items@.len() == 0
    &&& lookup(o, "examples"@) matches Some(JsonValue::Array(items)) && items@.len() == 0
    &&& lookup(o, "occlusion"@) == Some(JsonValue::Null)
    &&& forall|other: Seq<char>| !new_card_keys().contains(other) ==> lookup(o, other) is None
}

/// The object of a new blank basic card with id `id`.
pub fn new_card_object(id: &str) -> (r: JsonValue)
    ensures
        is_new_card_object(r, id@),
{
    let ghost keys = new_card_keys();
    proof {
        lemma_new_card_keys_distinct();
        assert(keys[0] == "id"@);
        assert(keys[1] == "kind"@);
        assert(keys[2] == "term"@);
        assert(keys[3] == "definition"@);
        assert(keys[4] == "prompt"@);
        assert(keys[5] == "answer"@);
        assert(keys[6] == "term_lang"@);
        assert(keys[7] == "def_lang"@);
        assert(keys[8] == "lexical"@);
        assert(keys[9] == "notes"@);
        assert(keys[10] == "media"@);
        assert(keys[11] == "tags"@);
        assert(keys[12] == "examples"@);
        assert(keys[13] == "occlusion"@);
    }
    let mut o: Vec<(String, JsonValue)> = Vec::new();
    let ghost o0 = o@;
    insert_field(&mut o, "id", JsonValue::Str(String::from_str(id)));
    insert_field(&mut o, "kind", JsonValue::Str(String::from_str("basic")));
    insert_field(&mut o, "term", JsonValue::Str(String::new()));
    insert_field(&mut o, "definition", JsonValue::Str(String::new()));
    insert_field(&mut o, "prompt", JsonValue::Null);
    insert_field(&mut o, "answer", JsonValue::Null);
    insert_field(&mut o, "term_lang", JsonValue::Null);
    insert_field(&mut o, "def_lang", JsonValue::Null);
    insert_field(&mut o, "lexical", JsonValue::Null);
    insert_field(&mut o, "notes", JsonValue::Null);
    insert_field(&mut o, "media", JsonValue::Array(Vec::new()));
    insert_field(&mut o, "tags", JsonValue::Array(Vec::new()));
    insert_field(&mut o, "examples", JsonValue::Array(Vec::new()));
    insert_field(&mut o, "occlusion", JsonValue::Null);
    proof {
        assert forall|other: Seq<char>| !keys.contains(other) implies lookup(o@, other) is None by {
            assert(keys[0] != other);
            assert(keys[1] != other);
            assert(keys[2] != other);
            assert(keys[3] != other);
            assert(keys[4] != other);
            assert(keys[5] != other);
            assert(keys[6] != other);
            assert(keys[7] != other);
            assert(keys[8] != other);
            assert(keys[9] != other);
            assert(keys[10] != other);
            assert(keys[11] != other);
            assert(keys[12] != other);
            assert(keys[13] != other);
            assert(lookup(o0, other) is None);
        }
    }
    JsonValue::Object(o)
}

/// `after` is `before` with `v` added at the end of its `cards` array; everything else in
/// the document is as it was.
pub open spec fn card_appended(before: JsonValue, after: JsonValue, v: JsonValue) -> bool {
    let f0 = before->Object_0@;
    let f1 = after->Object_0@;
    &&& before is Object
    &&& after is Object
    &&& field_index(f0, "cards"@) matches Some(cf)
    &&& f0[cf].1 is Array
    &&& f1[cf].1 is Array
    &&& f1.len() == f0.len()
    &&& forall|j: int| 0 <= j < f0.len() && j != cf ==> f1[j] == f0[j]
    &&& f1[cf].0 == f0[cf].0
    &&& f1[cf].1->Array_0@ == f0[cf].1->Array_0@.push(v)
}

/// Whether the document has a `cards` array.
pub open spec fn has_cards_array(doc: JsonValue) -> bool {
    &&& doc is Object
    &&& lookup(doc->Object_0@, "cards"@) matches Some(c)
    &&& c is Array
}

/// Adds `card` at the end of the document's `cards` array, when it has one. Answers whether
/// it did; nothing else in the document changes.
pub fn append_card_object(doc: &mut JsonValue, card: JsonValue) -> (done: bool)
    ensures
        done == has_cards_array(*old(doc)),
        !done ==> *final(doc) == *old(doc),
        done ==> card_appended(*old(doc), *final(doc), card),
{
    match doc {
        JsonValue::Object(fields) => {
            proof {
                lemma_field_index(fields@, "cards"@);
            }
            let mut i: usize = 0;
            while i < fields.len()
                invariant
                    i <= fields@.len(),
                    forall|j: int| 0 <= j < i ==> fields@[j].0@ != "cards"@,
                ensures
                    i <= fields@.len(),
                    forall|j: int| 0 <= j < i ==> fields@[j].0@ != "cards"@,
                    i < fields@.len() ==> fields@[i as int].0@ == "cards"@,
                decreases fields@.len() - i,
            {
                if str_eq(fields[i].0.as_str(), "cards") {
                    break;
                }
                i = i + 1;
            }
            if i == fields.len() {
                proof {
                    match field_index(fields@, "cards"@) {
                        Some(f) => {
                            assert(fields@[f].0@ != "cards"@);
                        },
                        None => {},
                    }
                }
                return false;
            }
            proof {
                match field_index(fields@, "cards"@) {
                    Some(f) => {
                        if f < i {
                            assert(fields@[f].0@ != "cards"@);
                        }
                        if f > i {
                            assert(fields@[i as int].0@ != "cards"@);
                        }
                    },
                    None => {
                        assert(fields@[i as int].0@ != "cards"@);
                    },
                }
            }
            let is_array = match &fields[i].1 {
                JsonValue::Array(_) => true,
                _ => false,
            };
            if !is_array {
                return false;
            }
            let ghost f0 = fields@;
            let (name, value) = fields.remove(i);
            match value {
                JsonValue::Array(mut cards) => {
                    cards.push(card);
                    fields.insert(i, (name, JsonValue::Array(cards)));
                    proof {
                        assert forall|j: int| 0 <= j < f0.len() && j != i implies fields@[j]
                            == f0[j] by {
                            if j < i {
                            } else {
                            }
                        }
                    }
                    true
                },
                _ => {
                    proof {
                        assert(false);
                    }
                    false
                },
            }
        },
        _ => false,
    }
}

} // verus!
