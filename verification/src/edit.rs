//! Card-level edits of the open deck, each recorded for undo.

use crate::models::{Card, CardKind, CardModel, DeckModel, MediaInfo, MediaInfoModel};
use crate::studio::MFlashStudioApp;
use crate::text::{
    contains_seq, decimal, decimal_string, ends_with_seq, join, lemma_join_push, str_contains,
    str_ends_with, to_lowercase, unicode_lowercase,
};
use vstd::prelude::*;

verus! {

/// The content of the open deck.
pub open spec fn deck_model(app: MFlashStudioApp) -> DeckModel {
    app.deck.unwrap().deep_view()
}

/// The cards of the open deck.
pub open spec fn cards_model(app: MFlashStudioApp) -> Seq<CardModel> {
    deck_model(app).cards
}

/// `d` with its cards replaced by `cards`.
pub open spec fn with_cards(d: DeckModel, cards: Seq<CardModel>) -> DeckModel {
    DeckModel { cards: cards, ..d }
}

/// Whether a deck is open and the selection points at one of its cards.
pub open spec fn has_current(app: MFlashStudioApp) -> bool {
    app.deck is Some && app.selected_index < cards_model(app).len()
}

/// The identifier given to a new card in a deck that had `n - 1` cards.
pub open spec fn new_card_id(n: nat) -> Seq<char> {
    "card-"@ + decimal(n)
}

/// A new, blank basic card.
pub open spec fn blank_card(
    id: Seq<char>,
    term_lang: Option<Seq<char>>,
    def_lang: Option<Seq<char>>,
) -> CardModel {
    CardModel {
        id: id,
        kind: CardKind::Basic,
        term: Some(Seq::empty()),
        definition: Some(Seq::empty()),
        prompt: None,
        answer: None,
        term_lang: term_lang,
        def_lang: def_lang,
        notes: None,
        tags: Seq::empty(),
        examples: Seq::empty(),
        media: Seq::empty(),
        occlusion: None,
        lexical: None,
    }
}

/// `new` is `old` after an undoable edit that left the deck with `cards`, the selection at
/// `selected` and the status message `message`.
pub open spec fn card_edit_post(
    old: MFlashStudioApp,
    new: MFlashStudioApp,
    cards: Seq<CardModel>,
    selected: usize,
    message: Seq<char>,
) -> bool {
    &&& MFlashStudioApp::edit_recorded(old, new)
    &&& new.deck is Some
    &&& deck_model(new) == with_cards(deck_model(old), cards)
    &&& new.selected_index == selected
    &&& new.raw_schema_text == old.raw_schema_text
    &&& new.json_error.deep_view() == Some(message)
    &&& new.same_settings(&old)
}

pub fn status(s: &str) -> (r: Option<String>)
    ensures
        r.deep_view() == Some(s@),
{
    Some(String::from_str(s))
}

/// The identifier for a new card in a deck that has `len` cards.
fn card_id(len: usize) -> (r: String)
    requires
        len < usize::MAX,
    ensures
        r@ == new_card_id((len + 1) as nat),
{
    let mut id = String::from_str("card-");
    let digits = decimal_string(len + 1);
    id.append(digits.as_str());
    id
}

/// Whether a deck is open and a card of it is selected.
pub fn has_current_card(app: &MFlashStudioApp) -> (r: bool)
    ensures
        r == has_current(*app),
{
    match &app.deck {
        Some(deck) => deck.cards.len() > 0 && app.selected_index < deck.cards.len(),
        None => false,
    }
}

/// Whether the selected card can move one place towards the start.
pub fn can_move_current_card_up(app: &MFlashStudioApp) -> (r: bool)
    ensures
        r == (has_current(*app) && app.selected_index > 0),
{
    has_current_card(app) && app.selected_index > 0
}

/// Whether the selected card can move one place towards the end.
pub fn can_move_current_card_down(app: &MFlashStudioApp) -> (r: bool)
    ensures
        r == (has_current(*app) && app.selected_index + 1 < cards_model(*app).len()),
{
    match &app.deck {
        Some(deck) => has_current_card(app) && app.selected_index < deck.cards.len()
            && app.selected_index + 1 < deck.cards.len(),
        None => false,
    }
}

/// Inserts `card` into the open deck at `at`, selects it and sets `message`.
fn insert_card(app: &mut MFlashStudioApp, at: usize, card: Card, message: &str)
    requires
        old(app).deck is Some,
        at <= cards_model(*old(app)).len(),
    ensures
        final(app).deck is Some,
        deck_model(*final(app)) == with_cards(
            deck_model(*old(app)),
            cards_model(*old(app)).insert(at as int, card.deep_view()),
        ),
        final(app).selected_index == at,
        final(app).json_error.deep_view() == Some(message@),
        final(app).raw_schema_text == old(app).raw_schema_text,
        final(app).undo_stack == old(app).undo_stack,
        final(app).redo_stack == old(app).redo_stack,
        final(app).same_settings(&*old(app)),
{
    let ghost old_cards = old(app).deck.unwrap().cards;
    match &mut app.deck {
        Some(deck) => {
            deck.cards.insert(at, card);
            proof {
                assert(deck.cards.deep_view() =~= old_cards.deep_view().insert(
                    at as int,
                    card.deep_view(),
                ));
            }
        },
        None => {},
    }
    app.selected_index = at;
    app.json_error = status(message);
}

/// A new, blank basic card with the given identifier and languages.
pub(crate) fn blank(id: String, term_lang: Option<String>, def_lang: Option<String>) -> (c: Card)
    ensures
        c.deep_view() == blank_card(id@, term_lang.deep_view(), def_lang.deep_view()),
{
    let c = Card {
        id: id,
        kind: CardKind::Basic,
        term: Some(String::new()),
        definition: Some(String::new()),
        prompt: None,
        answer: None,
        term_lang: term_lang,
        def_lang: def_lang,
        notes: None,
        tags: Vec::new(),
        examples: Vec::new(),
        media: Vec::new(),
        occlusion: None,
        lexical: None,
    };
    proof {
        assert(c.tags.deep_view() =~= Seq::<Seq<char>>::empty());
        assert(c.examples.deep_view() =~= Seq::empty());
        assert(c.media.deep_view() =~= Seq::empty());
    }
    c
}

/// `new` is `old` after `new_card_from_current_template`.
pub open spec fn new_card_post(old: MFlashStudioApp, new: MFlashStudioApp) -> bool {
    if old.deck is Some {
        let cards = cards_model(old);
        let at = new_card_position(cards.len(), old.selected_index);
        card_edit_post(
            old,
            new,
            cards.insert(at as int, new_blank_card(old)),
            at,
            "Created a new blank card."@,
        )
    } else {
        new == old
    }
}

/// Where a new card goes in a deck of `len` cards when `selected` is selected: right after
/// the selected card, or at the end when the selection is past the end.
pub open spec fn new_card_position(len: nat, selected: usize) -> usize {
    if len == 0 {
        0
    } else if selected < len {
        (selected + 1) as usize
    } else {
        len as usize
    }
}

/// The blank card that `new_card_from_current_template` adds to the open deck.
pub open spec fn new_blank_card(app: MFlashStudioApp) -> CardModel {
    blank_card(
        new_card_id(cards_model(app).len() + 1),
        deck_model(app).default_term_lang,
        deck_model(app).default_def_lang,
    )
}

/// Inserts a new blank card after the selected one (or as the only card), taking the deck's
/// default languages, and selects it.
pub fn new_card_from_current_template(app: &mut MFlashStudioApp)
    requires
        old(app).deck is Some ==> cards_model(*old(app)).len() < usize::MAX,
    ensures
        new_card_post(*old(app), *final(app)),
{
    if app.deck.is_none() {
        return;
    }
    proof {
        lemma_cards_len(*app);
    }
    let len: usize = card_count(app);
    let at: usize = if len == 0 {
        0
    } else if app.selected_index < len {
        app.selected_index + 1
    } else {
        len
    };
    insert_blank_card(app, at);
}

/// Records the state for undo, then inserts the deck's new blank card at `at` and selects it.
fn insert_blank_card(app: &mut MFlashStudioApp, at: usize)
    requires
        old(app).deck is Some,
        at <= cards_model(*old(app)).len(),
        cards_model(*old(app)).len() < usize::MAX,
    ensures
        card_edit_post(
            *old(app),
            *final(app),
            cards_model(*old(app)).insert(at as int, new_blank_card(*old(app))),
            at,
            "Created a new blank card."@,
        ),
{
    let card = match &app.deck {
        Some(deck) => {
            proof {
                lemma_cards_len(*app);
            }
            blank(
                card_id(deck.cards.len()),
                deck.default_term_lang.clone(),
                deck.default_def_lang.clone(),
            )
        },
        None => {
            return;
        },
    };
    app.push_snapshot();
    insert_card(app, at, card, "Created a new blank card.");
}

/// `new` is `old` after `duplicate_current_card`.
pub open spec fn duplicate_post(old: MFlashStudioApp, new: MFlashStudioApp) -> bool {
    if has_current(old) {
        let cards = cards_model(old);
        let i = old.selected_index;
        card_edit_post(
            old,
            new,
            cards.insert(
                i + 1,
                CardModel { id: new_card_id(cards.len() + 1), ..cards[i as int] },
            ),
            (i + 1) as usize,
            "Duplicated current card."@,
        )
    } else {
        new == old
    }
}

/// Inserts a copy of the selected card right after it, under a new identifier, and selects
/// the copy.
pub fn duplicate_current_card(app: &mut MFlashStudioApp)
    requires
        old(app).deck is Some ==> cards_model(*old(app)).len() < usize::MAX,
    ensures
        duplicate_post(*old(app), *final(app)),
{
    if !has_current_card(app) {
        return;
    }
    let insert_at: usize = app.selected_index + 1;
    let cloned = match &app.deck {
        None => {
            return;
        },
        Some(deck) => {
            let mut cloned = deck.cards[app.selected_index].clone();
            cloned.id = card_id(deck.cards.len());
            cloned
        },
    };
    app.push_snapshot();
    insert_card(app, insert_at, cloned, "Duplicated current card.");
}

/// `new` is `old` after `delete_current_card`.
pub open spec fn delete_post(old: MFlashStudioApp, new: MFlashStudioApp) -> bool {
    if has_current(old) {
        let cards = cards_model(old);
        let i = old.selected_index;
        let rest = cards.remove(i as int);
        card_edit_post(
            old,
            new,
            rest,
            if rest.len() == 0 {
                0
            } else if i < rest.len() {
                i
            } else {
                (rest.len() - 1) as usize
            },
            "Deleted current card."@,
        )
    } else {
        new == old
    }
}

/// Removes the selected card and keeps the selection within the remaining cards.
pub fn delete_current_card(app: &mut MFlashStudioApp)
    ensures
        delete_post(*old(app), *final(app)),
{
    if !has_current_card(app) {
        return;
    }
    app.push_snapshot();
    let ghost mid = *app;
    let sel: usize = app.selected_index;
    let mut new_sel: usize = 0;
    match &mut app.deck {
        Some(deck) => {
            let ghost old_cards = deck.cards;
            deck.cards.remove(sel);
            proof {
                assert(deck.cards.deep_view() =~= old_cards.deep_view().remove(sel as int));
            }
            if deck.cards.len() == 0 {
                new_sel = 0;
            } else if sel < deck.cards.len() {
                new_sel = sel;
            } else {
                new_sel = deck.cards.len() - 1;
            }
        },
        None => {},
    }
    app.selected_index = new_sel;
    app.json_error = status("Deleted current card.");
}

/// Exchanges the cards at `i` and `j`.
fn swap_cards(cards: &mut Vec<Card>, i: usize, j: usize)
    requires
        i < old(cards).len(),
        j < old(cards).len(),
    ensures
        final(cards).deep_view() == old(cards).deep_view().update(
            i as int,
            old(cards).deep_view()[j as int],
        ).update(j as int, old(cards).deep_view()[i as int]),
{
    let ghost old_cards = cards.deep_view();
    if i != j {
        let lo: usize = if i < j {
            i
        } else {
            j
        };
        let hi: usize = if i < j {
            j
        } else {
            i
        };
        let upper = cards.remove(hi);
        let lower = cards.remove(lo);
        cards.insert(lo, upper);
        cards.insert(hi, lower);
    }
    proof {
        assert(cards.deep_view() =~= old_cards.update(i as int, old_cards[j as int]).update(
            j as int,
            old_cards[i as int],
        ));
    }
}

/// Exchanges the selected card with the card `direction` places away and follows it with the
/// selection, when that place is within the deck.
/// The number of cards in the open deck.
fn card_count(app: &MFlashStudioApp) -> (r: usize)
    requires
        app.deck is Some,
    ensures
        r == cards_model(*app).len(),
{
    match &app.deck {
        Some(deck) => deck.cards.len(),
        None => 0,
    }
}

/// Exchanges the selected card with the card at `target` and selects `target`.
fn move_card_to(app: &mut MFlashStudioApp, target: usize, message: &str)
    requires
        has_current(*old(app)),
        target < cards_model(*old(app)).len(),
    ensures
        ({
            let cards = cards_model(*old(app));
            let i = old(app).selected_index as int;
            card_edit_post(
                *old(app),
                *final(app),
                cards.update(i, cards[target as int]).update(target as int, cards[i]),
                target,
                message@,
            )
        }),
{
    let cur: usize = app.selected_index;
    app.push_snapshot();
    match &mut app.deck {
        Some(deck) => {
            swap_cards(&mut deck.cards, cur, target);
        },
        None => {},
    }
    app.selected_index = target;
    app.json_error = status(message);
}

/// `new` is `old` after `move_current_card`.
pub open spec fn move_post(old: MFlashStudioApp, new: MFlashStudioApp, direction: isize) -> bool {
    let cards = cards_model(old);
    let i = old.selected_index as int;
    let t = i + direction;
    if has_current(old) && 0 <= t < cards.len() {
        card_edit_post(
            old,
            new,
            cards.update(i, cards[t]).update(t, cards[i]),
            t as usize,
            if direction < 0 {
                "Moved card up."@
            } else {
                "Moved card down."@
            },
        )
    } else {
        new == old
    }
}

/// Exchanges the selected card with the card `direction` places away and follows it with the
/// selection, when that place is within the deck.
pub fn move_current_card(app: &mut MFlashStudioApp, direction: isize)
    ensures
        move_post(*old(app), *final(app), direction),
{
    if !has_current_card(app) {
        return;
    }
    let len: usize = card_count(app);
    let current: i128 = app.selected_index as i128;
    let target_wide: i128 = current + direction as i128;
    if target_wide < 0 || target_wide >= len as i128 {
        return;
    }
    let target: usize = target_wide as usize;
    if direction < 0 {
        move_card_to(app, target, "Moved card up.");
    } else {
        move_card_to(app, target, "Moved card down.");
    }
}

/// `new` is `old` after `reset_current_card_media`.
pub open spec fn reset_media_post(old: MFlashStudioApp, new: MFlashStudioApp) -> bool {
    let cards = cards_model(old);
    let i = old.selected_index as int;
    if has_current(old) {
        card_edit_post(
            old,
            new,
            cards.update(i, CardModel { media: Seq::empty(), occlusion: None, ..cards[i] }),
            old.selected_index,
            "Reset current card media and occlusion data."@,
        )
    } else {
        new == old
    }
}

/// Removes the selected card's media and occlusion data.
pub fn reset_current_card_media(app: &mut MFlashStudioApp)
    ensures
        reset_media_post(*old(app), *final(app)),
{
    if !has_current_card(app) {
        return;
    }
    app.push_snapshot();
    let sel: usize = app.selected_index;
    match &mut app.deck {
        Some(deck) => {
            let ghost old_cards = deck.cards.deep_view();
            let card = &mut deck.cards[sel];
            card.media.clear();
            card.occlusion = None;
            proof {
                assert(card.media.deep_view() =~= Seq::<crate::models::MediaInfoModel>::empty());
                assert(deck.cards.deep_view() =~= old_cards.update(
                    sel as int,
                    CardModel { media: Seq::empty(), occlusion: None, ..old_cards[sel as int] },
                ));
            }
        },
        None => {},
    }
    app.json_error = status("Reset current card media and occlusion data.");
}

/// The card with its front and back exchanged: term with definition, prompt with answer and
/// the two languages.
pub open spec fn swapped_front_back(c: CardModel) -> CardModel {
    CardModel {
        term: c.definition,
        definition: c.term,
        prompt: c.answer,
        answer: c.prompt,
        term_lang: c.def_lang,
        def_lang: c.term_lang,
        ..c
    }
}

/// `new` is `old` after `swap_current_card_front_back`.
pub open spec fn swap_front_back_post(old: MFlashStudioApp, new: MFlashStudioApp) -> bool {
    let cards = cards_model(old);
    let i = old.selected_index as int;
    if has_current(old) {
        card_edit_post(
            old,
            new,
            cards.update(i, swapped_front_back(cards[i])),
            old.selected_index,
            "Swapped current card front/back fields."@,
        )
    } else {
        new == old
    }
}

/// Exchanges the front and back of the selected card.
pub fn swap_current_card_front_back(app: &mut MFlashStudioApp)
    ensures
        swap_front_back_post(*old(app), *final(app)),
{
    if !has_current_card(app) {
        return;
    }
    app.push_snapshot();
    let sel: usize = app.selected_index;
    match &mut app.deck {
        Some(deck) => {
            let ghost old_cards = deck.cards.deep_view();
            let card = &mut deck.cards[sel];
            std::mem::swap(&mut card.term, &mut card.definition);
            std::mem::swap(&mut card.prompt, &mut card.answer);
            std::mem::swap(&mut card.term_lang, &mut card.def_lang);
            proof {
                assert(deck.cards.deep_view() =~= old_cards.update(
                    sel as int,
                    swapped_front_back(old_cards[sel as int]),
                ));
            }
        },
        None => {},
    }
    app.json_error = status("Swapped current card front/back fields.");
}

/// The model of the cards is as long as the vector that holds them.
pub proof fn lemma_cards_len(app: MFlashStudioApp)
    requires
        app.deck is Some,
    ensures
        cards_model(app).len() == app.deck.unwrap().cards.len(),
        cards_model(app).len() <= usize::MAX,
{
    let v = app.deck.unwrap().cards;
    assert(v.deep_view().len() == v@.len());
    assert(v@.len() == v.len());
}

/// Deleting the copy that `duplicate_current_card` just made gives back the deck as it was.
pub proof fn lemma_delete_reverts_duplicate(a: MFlashStudioApp, b: MFlashStudioApp, c: MFlashStudioApp)
    requires
        has_current(a),
        duplicate_post(a, b),
        delete_post(b, c),
    ensures
        deck_model(c) == deck_model(a),
{
    let cards = cards_model(a);
    let i = a.selected_index;
    let copy = CardModel { id: new_card_id(cards.len() + 1), ..cards[i as int] };
    lemma_cards_len(a);
    assert(cards_model(b) == cards.insert(i + 1, copy));
    assert(b.selected_index == i + 1);
    assert(has_current(b));
    assert(cards.insert(i + 1, copy).remove(i + 1) =~= cards);
    assert(with_cards(with_cards(deck_model(a), cards.insert(i + 1, copy)), cards) =~= deck_model(a));
}

/// Deleting the card that `new_card_from_current_template` just made gives back the deck as
/// it was.
pub proof fn lemma_delete_reverts_new_card(a: MFlashStudioApp, b: MFlashStudioApp, c: MFlashStudioApp)
    requires
        a.deck is Some,
        new_card_post(a, b),
        delete_post(b, c),
    ensures
        deck_model(c) == deck_model(a),
{
    let cards = cards_model(a);
    let at = new_card_position(cards.len(), a.selected_index);
    let blank = new_blank_card(a);
    lemma_cards_len(a);
    assert(cards_model(b) == cards.insert(at as int, blank));
    assert(has_current(b));
    assert(cards.insert(at as int, blank).remove(at as int) =~= cards);
    assert(with_cards(with_cards(deck_model(a), cards.insert(at as int, blank)), cards) =~= deck_model(a));
}

/// Moving the selected card one way and then back gives back the deck and the selection.
pub proof fn lemma_move_back_reverts_move(
    a: MFlashStudioApp,
    b: MFlashStudioApp,
    c: MFlashStudioApp,
    direction: isize,
    back: isize,
)
    requires
        has_current(a),
        0 <= a.selected_index + direction < cards_model(a).len(),
        back == -direction,
        move_post(a, b, direction),
        move_post(b, c, back),
    ensures
        deck_model(c) == deck_model(a),
        c.selected_index == a.selected_index,
{
    let cards = cards_model(a);
    let i = a.selected_index as int;
    let t = i + direction;
    let moved = cards.update(i, cards[t]).update(t, cards[i]);
    lemma_cards_len(a);
    assert(cards_model(b) == moved);
    assert(b.selected_index == t);
    assert(has_current(b));
    assert(moved.update(t, moved[i]).update(i, moved[t]) =~= cards);
    assert(with_cards(with_cards(deck_model(a), moved), cards) =~= deck_model(a));
}

/// Exchanging front and back twice gives back the card.
pub proof fn lemma_swap_front_back_twice(a: MFlashStudioApp, b: MFlashStudioApp, c: MFlashStudioApp)
    requires
        has_current(a),
        swap_front_back_post(a, b),
        swap_front_back_post(b, c),
    ensures
        deck_model(c) == deck_model(a),
        c.selected_index == a.selected_index,
{
    let cards = cards_model(a);
    let i = a.selected_index as int;
    let once = cards.update(i, swapped_front_back(cards[i]));
    assert(cards_model(b) == once);
    assert(has_current(b));
    assert(swapped_front_back(swapped_front_back(cards[i])) == cards[i]);
    assert(once.update(i, swapped_front_back(once[i])) =~= cards);
    assert(with_cards(with_cards(deck_model(a), once), cards) =~= deck_model(a));
}

/// `new` is `old` after an undoable change of the schema text to `text` with the status
/// message `message`.
pub open spec fn text_edit_post(
    old: MFlashStudioApp,
    new: MFlashStudioApp,
    text: Seq<char>,
    message: Seq<char>,
) -> bool {
    &&& MFlashStudioApp::edit_recorded(old, new)
    &&& new.deck == old.deck
    &&& new.selected_index == old.selected_index
    &&& new.raw_schema_text@ == text
    &&& new.json_error.deep_view() == Some(message)
    &&& new.same_settings(&old)
}

/// Replaces the schema text by what `transform` makes of it, recording the old state for
/// undo.
pub fn transform_schema_text<F: FnOnce(&str) -> String>(app: &mut MFlashStudioApp, transform: F)
    requires
        forall|s: &str| call_requires(transform, (s,)),
    ensures
        exists|s: &str, out: String|
            s@ == old(app).raw_schema_text@ && call_ensures(transform, (s,), out) && text_edit_post(
                *old(app),
                *final(app),
                out@,
                "Text tool applied to schema text."@,
            ),
{
    app.push_snapshot();
    let out = transform(app.raw_schema_text.as_str());
    app.raw_schema_text = out;
    app.json_error = status("Text tool applied to schema text.");
}

/// Empties the schema text, recording the old state for undo.
pub fn clear_schema_text(app: &mut MFlashStudioApp)
    ensures
        text_edit_post(
            *old(app),
            *final(app),
            Seq::empty(),
            "Schema text cleared. Use Undo to restore it."@,
        ),
{
    app.push_snapshot();
    app.raw_schema_text = String::new();
    app.json_error = status("Schema text cleared. Use Undo to restore it.");
}

} // verus!
