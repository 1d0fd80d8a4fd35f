//! The version 3 `.mflash` deck model and its mathematical views.
//!
//! Each type has a `DeepView` whose value is the type's content as
//! sequences of characters, and a `Clone` that provably keeps that content.

use vstd::prelude::*;

verus! {

/// The kind of a card, which decides how its fields are presented.
#[derive(Debug, Clone, Copy, PartialEq, Eq, Structural)]
pub enum CardKind {
    Basic,
    ImageOcclusion,
    Listening,
    MediaPrompt,
    Cloze,
}

/// Content of a [`MediaInfo`].
pub struct MediaInfoModel {
    pub id: Option<Seq<char>>,
    pub src: Seq<char>,
    pub media_type: Seq<char>,
    pub role: Option<Seq<char>>,
    pub alt: Option<Seq<char>>,
    pub description: Option<Seq<char>>,
}

/// A media reference: an image, a sound or another file attached to a card or deck.
#[derive(Debug)]
pub struct MediaInfo {
    pub id: Option<String>,
    pub src: String,
    pub media_type: String,
    pub role: Option<String>,
    pub alt: Option<String>,
    pub description: Option<String>,
}

impl DeepView for MediaInfo {
    type V = MediaInfoModel;

    open spec fn deep_view(&self) -> MediaInfoModel {
        MediaInfoModel {
            id: self.id.deep_view(),
            src: self.src@,
            media_type: self.media_type@,
            role: self.role.deep_view(),
            alt: self.alt.deep_view(),
            description: self.description.deep_view(),
        }
    }
}

impl Clone for MediaInfo {
    fn clone(&self) -> (r: Self)
        ensures
            r.deep_view() == self.deep_view(),
    {
        MediaInfo {
            id: self.id.clone(),
            src: self.src.clone(),
            media_type: self.media_type.clone(),
            role: self.role.clone(),
            alt: self.alt.clone(),
            description: self.description.clone(),
        }
    }
}

/// Content of an [`OcclusionMask`].
pub struct OcclusionMaskModel {
    pub id: Seq<char>,
    pub x: u32,
    pub y: u32,
    pub width: u32,
    pub height: u32,
    pub label: Option<Seq<char>>,
}

/// A rectangle hidden on an occlusion image.
///
/// The coordinates are IEEE 754 single-precision values held by their bit
/// patterns (`f32::to_bits`); the library only carries them.
#[derive(Debug)]
pub struct OcclusionMask {
    pub id: String,
    pub x: u32,
    pub y: u32,
    pub width: u32,
    pub height: u32,
    pub label: Option<String>,
}

impl DeepView for OcclusionMask {
    type V = OcclusionMaskModel;

    open spec fn deep_view(&self) -> OcclusionMaskModel {
        OcclusionMaskModel {
            id: self.id@,
            x: self.x,
            y: self.y,
            width: self.width,
            height: self.height,
            label: self.label.deep_view(),
        }
    }
}

impl Clone for OcclusionMask {
    fn clone(&self) -> (r: Self)
        ensures
            r.deep_view() == self.deep_view(),
    {
        OcclusionMask {
            id: self.id.clone(),
            x: self.x,
            y: self.y,
            width: self.width,
            height: self.height,
            label: self.label.clone(),
        }
    }
}

/// Content of an [`Occlusion`].
pub struct OcclusionModel {
    pub image: MediaInfoModel,
    pub masks: Seq<OcclusionMaskModel>,
}

/// An image with masks over the parts to recall.
#[derive(Debug)]
pub struct Occlusion {
    pub image: MediaInfo,
    pub masks: Vec<OcclusionMask>,
}

impl DeepView for Occlusion {
    type V = OcclusionModel;

    open spec fn deep_view(&self) -> OcclusionModel {
        OcclusionModel { image: self.image.deep_view(), masks: self.masks.deep_view() }
    }
}

impl Clone for Occlusion {
    fn clone(&self) -> (r: Self)
        ensures
            r.deep_view() == self.deep_view(),
    {
        let masks = self.masks.clone();
        proof {
            assert(masks.deep_view() =~= self.masks.deep_view());
        }
        Occlusion { image: self.image.clone(), masks }
    }
}

/// Content of a [`LexicalInfo`].
pub struct LexicalInfoModel {
    pub phonetic: Option<Seq<char>>,
    pub part_of_speech: Option<Seq<char>>,
    pub forms: Seq<Seq<char>>,
    pub synonyms: Seq<Seq<char>>,
    pub antonyms: Seq<Seq<char>>,
}

/// Dictionary information about a term.
#[derive(Debug)]
pub struct LexicalInfo {
    pub phonetic: Option<String>,
    pub part_of_speech: Option<String>,
    pub forms: Vec<String>,
    pub synonyms: Vec<String>,
    pub antonyms: Vec<String>,
}

impl DeepView for LexicalInfo {
    type V = LexicalInfoModel;

    open spec fn deep_view(&self) -> LexicalInfoModel {
        LexicalInfoModel {
            phonetic: self.phonetic.deep_view(),
            part_of_speech: self.part_of_speech.deep_view(),
            forms: self.forms.deep_view(),
            synonyms: self.synonyms.deep_view(),
            antonyms: self.antonyms.deep_view(),
        }
    }
}

impl Clone for LexicalInfo {
    fn clone(&self) -> (r: Self)
        ensures
            r.deep_view() == self.deep_view(),
    {
        let forms = self.forms.clone();
        let synonyms = self.synonyms.clone();
        let antonyms = self.antonyms.clone();
        proof {
            assert(forms.deep_view() =~= self.forms.deep_view());
            assert(synonyms.deep_view() =~= self.synonyms.deep_view());
            assert(antonyms.deep_view() =~= self.antonyms.deep_view());
        }
        LexicalInfo {
            phonetic: self.phonetic.clone(),
            part_of_speech: self.part_of_speech.clone(),
            forms,
            synonyms,
            antonyms,
        }
    }
}

/// Content of an [`ExampleInfo`].
pub struct ExampleInfoModel {
    pub text: Seq<char>,
    pub translation: Option<Seq<char>>,
    pub lang: Option<Seq<char>>,
    pub translation_lang: Option<Seq<char>>,
    pub media: Seq<MediaInfoModel>,
}

/// An example sentence with its translation and media.
#[derive(Debug)]
pub struct ExampleInfo {
    pub text: String,
    pub translation: Option<String>,
    pub lang: Option<String>,
    pub translation_lang: Option<String>,
    pub media: Vec<MediaInfo>,
}

impl DeepView for ExampleInfo {
    type V = ExampleInfoModel;

    open spec fn deep_view(&self) -> ExampleInfoModel {
        ExampleInfoModel {
            text: self.text@,
            translation: self.translation.deep_view(),
            lang: self.lang.deep_view(),
            translation_lang: self.translation_lang.deep_view(),
            media: self.media.deep_view(),
        }
    }
}

impl Clone for ExampleInfo {
    fn clone(&self) -> (r: Self)
        ensures
            r.deep_view() == self.deep_view(),
    {
        let media = self.media.clone();
        proof {
            assert(media.deep_view() =~= self.media.deep_view());
        }
        ExampleInfo {
            text: self.text.clone(),
            translation: self.translation.clone(),
            lang: self.lang.clone(),
            translation_lang: self.translation_lang.clone(),
            media,
        }
    }
}

/// Content of an [`Example`].
pub enum ExampleModel {
    Text(Seq<char>),
    Detailed(ExampleInfoModel),
}

/// An example: plain text, or text with details.
#[derive(Debug)]
pub enum Example {
    Text(String),
    Detailed(ExampleInfo),
}

impl DeepView for Example {
    type V = ExampleModel;

    open spec fn deep_view(&self) -> ExampleModel {
        match self {
            Example::Text(s) => ExampleModel::Text(s@),
            Example::Detailed(info) => ExampleModel::Detailed(info.deep_view()),
        }
    }
}

impl Clone for Example {
    fn clone(&self) -> (r: Self)
        ensures
            r.deep_view() == self.deep_view(),
    {
        match self {
            Example::Text(s) => Example::Text(s.clone()),
            Example::Detailed(info) => Example::Detailed(info.clone()),
        }
    }
}

/// Content of a [`Card`].
pub struct CardModel {
    pub id: Seq<char>,
    pub kind: CardKind,
    pub term: Option<Seq<char>>,
    pub definition: Option<Seq<char>>,
    pub prompt: Option<Seq<char>>,
    pub answer: Option<Seq<char>>,
    pub term_lang: Option<Seq<char>>,
    pub def_lang: Option<Seq<char>>,
    pub notes: Option<Seq<char>>,
    pub tags: Seq<Seq<char>>,
    pub examples: Seq<ExampleModel>,
    pub media: Seq<MediaInfoModel>,
    pub occlusion: Option<OcclusionModel>,
    pub lexical: Option<LexicalInfoModel>,
}

/// A flashcard.
#[derive(Debug)]
pub struct Card {
    pub id: String,
    pub kind: CardKind,
    pub term: Option<String>,
    pub definition: Option<String>,
    pub prompt: Option<String>,
    pub answer: Option<String>,
    pub term_lang: Option<String>,
    pub def_lang: Option<String>,
    pub notes: Option<String>,
    pub tags: Vec<String>,
    pub examples: Vec<Example>,
    pub media: Vec<MediaInfo>,
    pub occlusion: Option<Occlusion>,
    pub lexical: Option<LexicalInfo>,
}

impl DeepView for Card {
    type V = CardModel;

    open spec fn deep_view(&self) -> CardModel {
        CardModel {
            id: self.id@,
            kind: self.kind,
            term: self.term.deep_view(),
            definition: self.definition.deep_view(),
            prompt: self.prompt.deep_view(),
            answer: self.answer.deep_view(),
            term_lang: self.term_lang.deep_view(),
            def_lang: self.def_lang.deep_view(),
            notes: self.notes.deep_view(),
            tags: self.tags.deep_view(),
            examples: self.examples.deep_view(),
            media: self.media.deep_view(),
            occlusion: self.occlusion.deep_view(),
            lexical: self.lexical.deep_view(),
        }
    }
}

impl Clone for Card {
    fn clone(&self) -> (r: Self)
        ensures
            r.deep_view() == self.deep_view(),
    {
        let tags = self.tags.clone();
        let examples = self.examples.clone();
        let media = self.media.clone();
        proof {
            assert(tags.deep_view() =~= self.tags.deep_view());
            assert(examples.deep_view() =~= self.examples.deep_view());
            assert(media.deep_view() =~= self.media.deep_view());
        }
        Card {
            id: self.id.clone(),
            kind: self.kind,
            term: self.term.clone(),
            definition: self.definition.clone(),
            prompt: self.prompt.clone(),
            answer: self.answer.clone(),
            term_lang: self.term_lang.clone(),
            def_lang: self.def_lang.clone(),
            notes: self.notes.clone(),
            tags,
            examples,
            media,
            occlusion: self.occlusion.clone(),
            lexical: self.lexical.clone(),
        }
    }
}

/// Content of an [`MFlashDeck`].
pub struct DeckModel {
    pub format: Seq<char>,
    pub version: u32,
    pub id: Seq<char>,
    pub title: Seq<char>,
    pub description: Option<Seq<char>>,
    pub snippet: Option<Seq<char>>,
    pub default_term_lang: Option<Seq<char>>,
    pub default_def_lang: Option<Seq<char>>,
    pub deck_tags: Seq<Seq<char>>,
    pub cover: Option<MediaInfoModel>,
    pub cards: Seq<CardModel>,
}

/// A deck of cards.
#[derive(Debug)]
pub struct MFlashDeck {
    pub format: String,
    pub version: u32,
    pub id: String,
    pub title: String,
    pub description: Option<String>,
    pub snippet: Option<String>,
    pub default_term_lang: Option<String>,
    pub default_def_lang: Option<String>,
    pub deck_tags: Vec<String>,
    pub cover: Option<MediaInfo>,
    pub cards: Vec<Card>,
}

impl DeepView for MFlashDeck {
    type V = DeckModel;

    open spec fn deep_view(&self) -> DeckModel {
        DeckModel {
            format: self.format@,
            version: self.version,
            id: self.id@,
            title: self.title@,
            description: self.description.deep_view(),
            snippet: self.snippet.deep_view(),
            default_term_lang: self.default_term_lang.deep_view(),
            default_def_lang: self.default_def_lang.deep_view(),
            deck_tags: self.deck_tags.deep_view(),
            cover: self.cover.deep_view(),
            cards: self.cards.deep_view(),
        }
    }
}

impl Clone for MFlashDeck {
    fn clone(&self) -> (r: Self)
        ensures
            r.deep_view() == self.deep_view(),
    {
        let deck_tags = self.deck_tags.clone();
        let cards = self.cards.clone();
        proof {
            assert(deck_tags.deep_view() =~= self.deck_tags.deep_view());
            assert(cards.deep_view() =~= self.cards.deep_view());
        }
        MFlashDeck {
            format: self.format.clone(),
            version: self.version,
            id: self.id.clone(),
            title: self.title.clone(),
            description: self.description.clone(),
            snippet: self.snippet.clone(),
            default_term_lang: self.default_term_lang.clone(),
            default_def_lang: self.default_def_lang.clone(),
            deck_tags,
            cover: self.cover.clone(),
            cards,
        }
    }
}

/// The format name a deck has when its file gives none.
pub fn default_format() -> (r: String)
    ensures
        r@ == "mflash"@,
{
    String::from_str("mflash")
}

/// The format version a deck has when its file gives none.
pub fn default_version_v3() -> (r: u32)
    ensures
        r == 3,
{
    3
}

/// The kind a card has when its file gives none.
pub fn default_card_kind() -> (r: CardKind)
    ensures
        r == CardKind::Basic,
{
    CardKind::Basic
}

} // verus!
