//! Questions about cards' media, and selecting the cards that answer them.

use crate::edit::{cards_model, status};
use crate::models::{Card, CardModel, MediaInfo, MediaInfoModel};
use crate::studio::MFlashStudioApp;
use crate::text::{
    contains_seq, decimal, decimal_string, ends_with_seq, join, lemma_join_push, str_contains,
    str_ends_with, to_lowercase, unicode_lowercase,
};
use vstd::prelude::*;

verus! {

/// A media role as text: the role, or nothing when there is none.
pub open spec fn role_text(role: Option<Seq<char>>) -> Seq<char> {
    match role {
        Some(r) => r,
        None => Seq::empty(),
    }
}

/// Whether the media's type or role, lowercased, mentions `word`.
pub open spec fn media_mentions(m: MediaInfoModel, word: Seq<char>) -> bool {
    contains_seq(unicode_lowercase(m.media_type), word) || contains_seq(
        unicode_lowercase(role_text(m.role)),
        word,
    )
}

/// Whether a media reference is a sound: by its type, its role or its file extension.
pub open spec fn media_is_audio(m: MediaInfoModel) -> bool {
    ||| media_mentions(m, "audio"@)
    ||| ends_with_seq(m.src, ".mp3"@)
    ||| ends_with_seq(m.src, ".wav"@)
    ||| ends_with_seq(m.src, ".ogg"@)
    ||| ends_with_seq(m.src, ".flac"@)
    ||| ends_with_seq(m.src, ".m4a"@)
}

/// Whether a media reference is an image: by its type, its role or its file extension.
pub open spec fn media_is_image(m: MediaInfoModel) -> bool {
    ||| media_mentions(m, "image"@)
    ||| ends_with_seq(m.src, ".png"@)
    ||| ends_with_seq(m.src, ".jpg"@)
    ||| ends_with_seq(m.src, ".jpeg"@)
    ||| ends_with_seq(m.src, ".webp"@)
    ||| ends_with_seq(m.src, ".gif"@)
    ||| ends_with_seq(m.src, ".bmp"@)
    ||| ends_with_seq(m.src, ".svg"@)
}

/// Whether a card has a sound among its media.
pub open spec fn has_audio(c: CardModel) -> bool {
    exists|i: int| 0 <= i < c.media.len() && media_is_audio(#[trigger] c.media[i])
}

/// Whether a card has an image: occlusion data, or an image among its media.
pub open spec fn has_image(c: CardModel) -> bool {
    c.occlusion is Some || exists|i: int| 0 <= i < c.media.len() && media_is_image(
        #[trigger] c.media[i],
    )
}

/// Whether a card has any media.
pub open spec fn has_media(c: CardModel) -> bool {
    c.media.len() > 0
}

fn role_lowercase(m: &MediaInfo) -> (r: String)
    ensures
        r@ == unicode_lowercase(role_text(m.deep_view().role)),
{
    match &m.role {
        Some(role) => to_lowercase(role.as_str()),
        None => {
            let empty = String::new();
            to_lowercase(empty.as_str())
        },
    }
}

fn mentions(m: &MediaInfo, word: &str) -> (r: bool)
    ensures
        r == media_mentions(m.deep_view(), word@),
{
    let media_type = to_lowercase(m.media_type.as_str());
    let role = role_lowercase(m);
    str_contains(media_type.as_str(), word) || str_contains(role.as_str(), word)
}

/// Whether a media reference is a sound.
pub fn is_audio_media(m: &MediaInfo) -> (r: bool)
    ensures
        r == media_is_audio(m.deep_view()),
{
    let src = m.src.as_str();
    mentions(m, "audio") || str_ends_with(src, ".mp3") || str_ends_with(src, ".wav")
        || str_ends_with(src, ".ogg") || str_ends_with(src, ".flac") || str_ends_with(src, ".m4a")
}

/// Whether a media reference is an image.
pub fn is_image_media(m: &MediaInfo) -> (r: bool)
    ensures
        r == media_is_image(m.deep_view()),
{
    let src = m.src.as_str();
    mentions(m, "image") || str_ends_with(src, ".png") || str_ends_with(src, ".jpg")
        || str_ends_with(src, ".jpeg") || str_ends_with(src, ".webp") || str_ends_with(
        src,
        ".gif",
    ) || str_ends_with(src, ".bmp") || str_ends_with(src, ".svg")
}

/// Whether the card has a sound among its media.
pub fn card_has_audio(card: &Card) -> (r: bool)
    ensures
        r == has_audio(card.deep_view()),
{
    let mut i: usize = 0;
    while i < card.media.len()
        invariant
            i <= card.media@.len(),
            forall|k: int| 0 <= k < i ==> !media_is_audio(#[trigger] card.deep_view().media[k]),
        decreases card.media@.len() - i,
    {
        if is_audio_media(&card.media[i]) {
            proof {
                assert(card.deep_view().media[i as int] == card.media@[i as int].deep_view());
            }
            return true;
        }
        i = i + 1;
    }
    false
}

/// Whether the card has occlusion data or an image among its media.
pub fn card_has_image(card: &Card) -> (r: bool)
    ensures
        r == has_image(card.deep_view()),
{
    if card.occlusion.is_some() {
        return true;
    }
    let mut i: usize = 0;
    while i < card.media.len()
        invariant
            i <= card.media@.len(),
            card.occlusion is None,
            forall|k: int| 0 <= k < i ==> !media_is_image(#[trigger] card.deep_view().media[k]),
        decreases card.media@.len() - i,
    {
        if is_image_media(&card.media[i]) {
            proof {
                assert(card.deep_view().media[i as int] == card.media@[i as int].deep_view());
            }
            return true;
        }
        i = i + 1;
    }
    false
}

/// The positions of the cards that satisfy `p`, in increasing order.
pub open spec fn indices_where(cards: Seq<CardModel>, p: spec_fn(CardModel) -> bool) -> Seq<usize>
    decreases cards.len(),
{
    if cards.len() == 0 {
        seq![]
    } else {
        let rest = indices_where(cards.drop_last(), p);
        if p(cards.last()) {
            rest.push((cards.len() - 1) as usize)
        } else {
            rest
        }
    }
}

/// Which question a selection asks of each card.
#[derive(Debug, Clone, Copy, PartialEq, Eq, Structural)]
pub enum CardQuery {
    WithMedia,
    MissingAudio,
    MissingImages,
}

/// The question as a predicate on cards.
pub open spec fn query_holds(q: CardQuery) -> spec_fn(CardModel) -> bool {
    match q {
        CardQuery::WithMedia => |c: CardModel| has_media(c),
        CardQuery::MissingAudio => |c: CardModel| !has_audio(c),
        CardQuery::MissingImages => |c: CardModel| !has_image(c),
    }
}

/// A card with occlusion data has an image, whatever its media: it is never among the cards
/// missing images. A card without occlusion data has one exactly when one of its media is
/// an image.
pub proof fn lemma_occlusion_cards_have_images(c: CardModel)
    ensures
        c.occlusion is Some ==> has_image(c),
        c.occlusion is Some ==> !(query_holds(CardQuery::MissingImages))(c),
        c.occlusion is None ==> (has_image(c) <==> exists|i: int|
            0 <= i < c.media.len() && media_is_image(#[trigger] c.media[i])),
{
}

/// No card with occlusion data is among the cards that a missing-images selection picks.
pub proof fn lemma_missing_images_skip_occlusion(cards: Seq<CardModel>, k: int)
    requires
        0 <= k < cards.len(),
        cards.len() <= usize::MAX,
        cards[k].occlusion is Some,
    ensures
        !indices_where(cards, query_holds(CardQuery::MissingImages)).contains(k as usize),
{
    lemma_indices_where_members(cards, query_holds(CardQuery::MissingImages), k as usize);
}

/// A position that `indices_where` lists is that of a card satisfying `p`.
proof fn lemma_indices_where_members(cards: Seq<CardModel>, p: spec_fn(CardModel) -> bool, j: usize)
    requires
        cards.len() <= usize::MAX,
    ensures
        indices_where(cards, p).contains(j) ==> j < cards.len() && p(cards[j as int]),
    decreases cards.len(),
{
    if cards.len() > 0 {
        let rest = indices_where(cards.drop_last(), p);
        lemma_indices_where_members(cards.drop_last(), p, j);
        if indices_where(cards, p).contains(j) {
            if p(cards.last()) && j == (cards.len() - 1) as usize {
                assert(j as int == cards.len() - 1);
            } else {
                if p(cards.last()) {
                    let w = choose|w: int| 0 <= w < rest.push((cards.len() - 1) as usize).len()
                        && #[trigger] rest.push((cards.len() - 1) as usize)[w] == j;
                    if w < rest.len() {
                        assert(rest[w] == j);
                    }
                }
                assert(rest.contains(j));
                assert(cards.drop_last()[j as int] == cards[j as int]);
            }
        }
    }
}

fn answers(card: &Card, q: CardQuery) -> (r: bool)
    ensures
        r == (query_holds(q))(card.deep_view()),
{
    match q {
        CardQuery::WithMedia => card.media.len() > 0,
        CardQuery::MissingAudio => !card_has_audio(card),
        CardQuery::MissingImages => !card_has_image(card),
    }
}

/// The positions of the cards that answer `q`.
pub fn matching_indices(cards: &Vec<Card>, q: CardQuery) -> (r: Vec<usize>)
    ensures
        r@ == indices_where(cards.deep_view(), query_holds(q)),
{
    let mut out: Vec<usize> = Vec::new();
    let mut i: usize = 0;
    while i < cards.len()
        invariant
            i <= cards@.len(),
            out@ == indices_where(cards.deep_view().take(i as int), query_holds(q)),
        decreases cards@.len() - i,
    {
        let ghost prefix = cards.deep_view().take(i as int);
        if answers(&cards[i], q) {
            out.push(i);
        }
        i = i + 1;
        proof {
            let next = cards.deep_view().take(i as int);
            assert(next.drop_last() =~= prefix);
            assert(next.last() == cards@[i - 1].deep_view());
        }
    }
    proof {
        assert(cards.deep_view().take(cards@.len() as int) =~= cards.deep_view());
    }
    out
}

/// The positions, written in decimal and separated by ", ".
pub open spec fn indices_text(ix: Seq<usize>) -> Seq<char> {
    join(Seq::new(ix.len(), |i: int| decimal(ix[i] as nat)), ", "@)
}

/// The status message that reports a selection of `n` items described by `label`.
pub open spec fn selected_message(n: nat, label: Seq<char>) -> Seq<char> {
    "Selected "@ + decimal(n) + " "@ + label + " into the app selection buffer."@
}

/// Writes the positions into the selection buffer and reports how many there are.
pub fn set_selected_indices(app: &mut MFlashStudioApp, selected_indices: Vec<usize>, label: &str)
    ensures
        final(app).last_selected_text@ == indices_text(selected_indices@),
        final(app).json_error.deep_view() == Some(
            selected_message(selected_indices@.len(), label@),
        ),
        final(app).same_document(&*old(app)),
        final(app).same_find_settings(&*old(app)),
        final(app).find_matches == old(app).find_matches,
        final(app).current_match_idx == old(app).current_match_idx,
        final(app).path == old(app).path,
        final(app).workspace == old(app).workspace,
{
    let mut text = String::new();
    let mut i: usize = 0;
    let ghost parts = Seq::new(
        selected_indices@.len(),
        |k: int| decimal(selected_indices@[k] as nat),
    );
    while i < selected_indices.len()
        invariant
            i <= selected_indices@.len(),
            parts.len() == selected_indices@.len(),
            forall|k: int| 0 <= k < parts.len() ==> parts[k] == decimal(selected_indices@[k] as nat),
            text@ == join(parts.take(i as int), ", "@),
        decreases selected_indices@.len() - i,
    {
        proof {
            lemma_join_push(parts.take(i as int), ", "@, parts[i as int]);
            assert(parts.take(i as int).push(parts[i as int]) =~= parts.take(i + 1));
        }
        if i > 0 {
            text.append(", ");
        }
        let digits = decimal_string(selected_indices[i]);
        text.append(digits.as_str());
        i = i + 1;
    }
    proof {
        assert(parts.take(selected_indices@.len() as int) =~= parts);
    }
    let mut message = String::from_str("Selected ");
    let count = decimal_string(selected_indices.len());
    message.append(count.as_str());
    message.append(" ");
    message.append(label);
    message.append(" into the app selection buffer.");
    app.last_selected_text = text;
    app.json_error = Some(message);
}

/// Selects the positions of the cards that answer `q`, when a deck is open.
fn select_cards(app: &mut MFlashStudioApp, q: CardQuery, label: &str)
    ensures
        old(app).deck is Some ==> {
            &&& final(app).last_selected_text@ == indices_text(
                indices_where(cards_model(*old(app)), query_holds(q)),
            )
            &&& final(app).json_error.deep_view() == Some(
                selected_message(
                    indices_where(cards_model(*old(app)), query_holds(q)).len(),
                    label@,
                ),
            )
            &&& final(app).same_document(&*old(app))
        },
        old(app).deck is None ==> *final(app) == *old(app),
{
    let indices = match &app.deck {
        Some(deck) => matching_indices(&deck.cards, q),
        None => {
            return;
        },
    };
    set_selected_indices(app, indices, label);
}

/// Selects the cards that have media.
pub fn select_cards_with_media(app: &mut MFlashStudioApp)
    ensures
        old(app).deck is Some ==> {
            &&& final(app).last_selected_text@ == indices_text(
                indices_where(cards_model(*old(app)), query_holds(CardQuery::WithMedia)),
            )
            &&& final(app).same_document(&*old(app))
        },
        old(app).deck is None ==> *final(app) == *old(app),
{
    select_cards(app, CardQuery::WithMedia, "card(s) with media");
}

/// Selects the cards that have no sound.
pub fn select_cards_missing_audio(app: &mut MFlashStudioApp)
    ensures
        old(app).deck is Some ==> {
            &&& final(app).last_selected_text@ == indices_text(
                indices_where(cards_model(*old(app)), query_holds(CardQuery::MissingAudio)),
            )
            &&& final(app).same_document(&*old(app))
        },
        old(app).deck is None ==> *final(app) == *old(app),
{
    select_cards(app, CardQuery::MissingAudio, "card(s) missing audio");
}

/// Selects the cards that have no image.
pub fn select_cards_missing_images(app: &mut MFlashStudioApp)
    ensures
        old(app).deck is Some ==> {
            &&& final(app).last_selected_text@ == indices_text(
                indices_where(cards_model(*old(app)), query_holds(CardQuery::MissingImages)),
            )
            &&& final(app).same_document(&*old(app))
        },
        old(app).deck is None ==> *final(app) == *old(app),
{
    select_cards(app, CardQuery::MissingImages, "card(s) missing images");
}

} // verus!
