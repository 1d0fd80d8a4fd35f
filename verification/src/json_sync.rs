//! The visual editor's edits written back into the schema text: the text is read as a JSON
//! document, the document is edited, and the text becomes the edited document written as
//! indented JSON. Text that is not JSON is left alone.

use vstd::prelude::*;
use crate::cover::get_field;
use crate::json::{
    append_card_object, card_appended, card_fields_synced, card_object, card_object_replaced,
    has_cards_array, image_media_set, is_new_card_object, json_text_parsed, json_text_pretty,
    new_card_object, parse_json_text, pretty_json_text, set_card_image_in_document,
    sync_card_into_document, CardJsonParts, JsonValue,
};
use crate::models::{Card, MFlashDeck};
use crate::studio::MFlashStudioApp;

verus! {

/// `after` is `before` with its schema text replaced by `edited` written as indented JSON
/// (the text stays as it was where serde_json reports an error); nothing else changes.
pub open spec fn text_rewritten(before: MFlashStudioApp, after: MFlashStudioApp, edited: JsonValue) -> bool {
    &&& after.raw_schema_text@ == match json_text_pretty(edited) {
        Some(t) => t,
        None => before.raw_schema_text@,
    }
    &&& after == (MFlashStudioApp { raw_schema_text: after.raw_schema_text, ..before })
}

/// `after` is the document `before` with the visual editor's fields of `card` written into
/// the object of card `index` (see `sync_card_into_document`). Kept opaque: `reveal` it to
/// read the fields.
#[verifier::opaque]
pub open spec fn card_synced_in(
    before: JsonValue,
    after: JsonValue,
    index: int,
    card: Card,
    parts: CardJsonParts,
) -> bool {
    &&& card_object(after, index) is Some
    &&& card_object_replaced(before, after, index, card_object(after, index)->0)
    &&& card_fields_synced(
        card_object(before, index)->0,
        card_object(after, index)->0,
        card,
        parts.kind,
        parts.lexical,
        parts.occlusion,
        parts.examples@,
    )
}

/// Whether the selected card can be synced: where the schema text is JSON, the deck is open
/// and the text has an object for the selected card, the deck has that card too.
pub open spec fn card_sync_fits(app: MFlashStudioApp) -> bool {
    match json_text_parsed(app.raw_schema_text@) {
        Some(doc) => app.deck is Some && card_object(doc, app.selected_index as int) is Some
            ==> app.selected_index < app.deck->0.cards.len(),
        None => true,
    }
}

/// What syncing the selected card does to the app, answering `synced`: where the schema text
/// is JSON, the selected card's fields are written into its object when the deck is open and
/// the text has that object (and only then is `synced` set), and the text is rewritten as
/// indented JSON either way; text that is not JSON is left alone.
pub open spec fn card_text_synced(
    before: MFlashStudioApp,
    after: MFlashStudioApp,
    parts: CardJsonParts,
    synced: bool,
) -> bool {
    let i = before.selected_index as int;
    match json_text_parsed(before.raw_schema_text@) {
        None => !synced && after == before,
        Some(doc) => {
            &&& synced == (before.deck is Some && card_object(doc, i) is Some)
            &&& !synced ==> text_rewritten(before, after, doc)
            &&& synced ==> exists|edited: JsonValue|
                #[trigger] card_synced_in(doc, edited, i, before.deck->0.cards@[i], parts)
                    && text_rewritten(before, after, edited)
        },
    }
}

/// Whether the document has an object for card `index`.
pub fn card_object_exists(doc: &JsonValue, index: usize) -> (r: bool)
    ensures
        r == card_object(*doc, index as int) is Some,
{
    match doc {
        JsonValue::Object(fields) => match get_field(fields, "cards") {
            Some(JsonValue::Array(cards)) => index < cards.len() && match &cards[index] {
                JsonValue::Object(_) => true,
                _ => false,
            },
            _ => false,
        },
        _ => false,
    }
}

/// Writes `doc` back into the schema text as indented JSON, when serde_json can write it.
fn write_back(app: &mut MFlashStudioApp, doc: &JsonValue)
    ensures
        text_rewritten(*old(app), *final(app), *doc),
{
    match pretty_json_text(doc) {
        Some(t) => {
            app.raw_schema_text = t;
        },
        None => {},
    }
}

/// Writes the fields of card `index` of the open deck into the document's object of that
/// card, when the deck is open and the document has that object.
fn sync_deck_card(
    doc: &mut JsonValue,
    deck: &Option<MFlashDeck>,
    index: usize,
    parts: CardJsonParts,
) -> (synced: bool)
    requires
        deck is Some && card_object(*old(doc), index as int) is Some ==> index < deck->0.cards.len(),
    ensures
        synced == (deck is Some && card_object(*old(doc), index as int) is Some),
        !synced ==> *final(doc) == *old(doc),
        synced ==> card_synced_in(*old(doc), *final(doc), index as int, deck->0.cards@[index as int], parts),
{
    match deck {
        Some(d) => {
            if index < d.cards.len() {
                let synced = sync_card_into_document(doc, index, &d.cards[index], parts);
                proof {
                    reveal(card_synced_in);
                }
                synced
            } else {
                false
            }
        },
        None => false,
    }
}

/// Writes the visual editor's fields of the selected card into its object in the schema
/// text (see `card_text_synced`); `parts` holds the card's kind, lexical details, occlusion
/// and examples as serialized JSON. Answers whether the card's object was written.
pub fn sync_current_card(app: &mut MFlashStudioApp, parts: CardJsonParts) -> (synced: bool)
    requires
        card_sync_fits(*old(app)),
    ensures
        card_text_synced(*old(app), *final(app), parts, synced),
{
    let mut doc = match parse_json_text(app.raw_schema_text.as_str()) {
        Some(d) => d,
        None => return false,
    };
    let synced = sync_deck_card(&mut doc, &app.deck, app.selected_index, parts);
    write_back(app, &doc);
    synced
}

/// Syncs the selected card as `sync_current_card` does, where `card_sync_fits` holds, and
/// answers `Some` of what it answers. Where it does not hold (the text has an object for the
/// selected card that the open deck lacks), the app is left alone and the answer is `None`.
pub fn sync_selected_card(app: &mut MFlashStudioApp, parts: CardJsonParts) -> (r: Option<bool>)
    ensures
        r is None <==> !card_sync_fits(*old(app)),
        r is None ==> *final(app) == *old(app),
        r matches Some(synced) ==> card_text_synced(*old(app), *final(app), parts, synced),
{
    let fits = match &app.deck {
        Some(deck) => {
            if app.selected_index < deck.cards.len() {
                true
            } else {
                match parse_json_text(app.raw_schema_text.as_str()) {
                    Some(doc) => !card_object_exists(&doc, app.selected_index),
                    None => true,
                }
            }
        },
        None => true,
    };
    if !fits {
        return None;
    }
    Some(sync_current_card(app, parts))
}

/// `after` is the document `before` with the illustration at `path` made the only media of
/// card `index`'s object (see `set_card_image_in_document`).
pub open spec fn card_image_set_in(before: JsonValue, after: JsonValue, index: int, path: Seq<char>) -> bool {
    &&& card_object(after, index) is Some
    &&& card_object_replaced(before, after, index, card_object(after, index)->0)
    &&& image_media_set(card_object(before, index)->0, card_object(after, index)->0, path)
}

/// Makes the dropped image at `path` the only media of the selected card's object in the
/// schema text. Where the text is JSON, the image is set when the text has that object (and
/// only then is `done` set), and the text is rewritten as indented JSON either way; text
/// that is not JSON is left alone.
pub fn sync_image_to_json(app: &mut MFlashStudioApp, path: &str) -> (done: bool)
    ensures
        match json_text_parsed(old(app).raw_schema_text@) {
            None => !done && *final(app) == *old(app),
            Some(doc) => {
                &&& done == card_object(doc, old(app).selected_index as int) is Some
                &&& !done ==> text_rewritten(*old(app), *final(app), doc)
                &&& done ==> exists|edited: JsonValue|
                    #[trigger] card_image_set_in(doc, edited, old(app).selected_index as int, path@)
                        && text_rewritten(*old(app), *final(app), edited)
            },
        },
{
    let mut doc = match parse_json_text(app.raw_schema_text.as_str()) {
        Some(d) => d,
        None => return false,
    };
    let ghost d0 = doc;
    let p = path.to_string();
    let done = set_card_image_in_document(&mut doc, app.selected_index, p);
    proof {
        assert(p@ == path@);
        if done {
            assert(card_image_set_in(d0, doc, app.selected_index as int, path@));
        }
    }
    write_back(app, &doc);
    done
}

/// Adds the object of a new blank basic card with id `id` at the end of the schema text's
/// `cards` array. Where the text is JSON, the card is added when the document has such an
/// array (and only then is `done` set), and the text is rewritten as indented JSON either
/// way; text that is not JSON is left alone.
pub fn add_card_to_json(app: &mut MFlashStudioApp, id: &str) -> (done: bool)
    ensures
        match json_text_parsed(old(app).raw_schema_text@) {
            None => !done && *final(app) == *old(app),
            Some(doc) => {
                &&& done == has_cards_array(doc)
                &&& !done ==> text_rewritten(*old(app), *final(app), doc)
                &&& done ==> exists|edited: JsonValue, card: JsonValue|
                    #[trigger] card_appended(doc, edited, card) && is_new_card_object(card, id@)
                        && text_rewritten(*old(app), *final(app), edited)
            },
        },
{
    let mut doc = match parse_json_text(app.raw_schema_text.as_str()) {
        Some(d) => d,
        None => return false,
    };
    let card = new_card_object(id);
    let ghost d0 = doc;
    let ghost c = card;
    let done = append_card_object(&mut doc, card);
    proof {
        if done {
            assert(card_appended(d0, doc, c) && is_new_card_object(c, id@));
        }
    }
    write_back(app, &doc);
    done
}

} // verus!
