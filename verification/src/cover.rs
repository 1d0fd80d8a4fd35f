//! The deck's cover image: the source named in the deck document, or else the image in the
//! package that looks most like a cover.

use vstd::prelude::*;
use crate::archive::{path_extension, std_path_extension};
use crate::assets::kind_of_extension;
use crate::edit::{deck_model, with_cards};
use crate::json::{json_text_parsed, lookup, parse_json_text, JsonValue};
use crate::models::{DeckModel, MediaInfo, MediaInfoModel};
use crate::studio::MFlashStudioApp;
use crate::text::{
    chars_of, contains_chars, contains_seq, str_eq, str_ends_with, ends_with_seq, to_lowercase,
    trim, trim_str, unicode_lowercase,
};

verus! {

/// Whether an extension (as given) is one the cover preview can show.
pub open spec fn supported_image_extension(ext: Seq<char>) -> bool {
    ext == "png"@ || ext == "jpg"@ || ext == "jpeg"@ || ext == "webp"@ || ext == "gif"@
}

/// The extensions of the images the cover preview shows.
pub open spec fn cover_image_extensions() -> Seq<Seq<char>> {
    seq!["png"@, "jpg"@, "jpeg"@, "webp"@, "gif"@]
}

/// The cover preview shows exactly the files whose extension is `png`, `jpg`, `jpeg`,
/// `webp` or `gif`, and each of them is an image (or GIF) asset.
pub proof fn lemma_cover_image_extensions(ext: Seq<char>)
    ensures
        supported_image_extension(ext) <==> cover_image_extensions().contains(ext),
        supported_image_extension(ext) ==> (kind_of_extension(ext) is Image || kind_of_extension(
            ext,
        ) is Gif),
{
    reveal_strlit("png");
    reveal_strlit("jpg");
    reveal_strlit("jpeg");
    reveal_strlit("webp");
    reveal_strlit("gif");
    assert(cover_image_extensions()[0] == "png"@);
    assert(cover_image_extensions()[1] == "jpg"@);
    assert(cover_image_extensions()[2] == "jpeg"@);
    assert(cover_image_extensions()[3] == "webp"@);
    assert(cover_image_extensions()[4] == "gif"@);
    if cover_image_extensions().contains(ext) {
        let i = choose|i: int| 0 <= i < cover_image_extensions().len() && cover_image_extensions()[i] == ext;
        assert(i == 0 || i == 1 || i == 2 || i == 3 || i == 4);
    }
}

/// Whether the cover preview can show a file with extension `ext`: `png`, `jpg`, `jpeg`,
/// `webp` or `gif`.
pub fn is_supported_image_extension(ext: &str) -> (r: bool)
    ensures
        r == supported_image_extension(ext@),
{
    str_eq(ext, "png") || str_eq(ext, "jpg") || str_eq(ext, "jpeg") || str_eq(ext, "webp")
        || str_eq(ext, "gif")
}

/// The source of the media object under `key` at the top of the deck document, when it is
/// a string that is not blank.
pub open spec fn root_media_src(doc: JsonValue, key: Seq<char>) -> Option<Seq<char>> {
    match doc {
        JsonValue::Object(fields) => match lookup(fields@, key) {
            Some(JsonValue::Object(media)) => match lookup(media@, "src"@) {
                Some(JsonValue::Str(s)) => if trim(s@).len() > 0 {
                    Some(s@)
                } else {
                    None
                },
                _ => None,
            },
            _ => None,
        },
        _ => None,
    }
}

pub(crate) fn get_field<'a>(fields: &'a Vec<(String, JsonValue)>, key: &str) -> (r: Option<&'a JsonValue>)
    ensures
        match r {
            Some(v) => lookup(fields@, key@) == Some(*v),
            None => lookup(fields@, key@) is None,
        },
{
    let mut i: usize = 0;
    assert(fields@.skip(0) =~= fields@);
    while i < fields.len()
        invariant
            i <= fields@.len(),
            lookup(fields@, key@) == lookup(fields@.skip(i as int), key@),
        decreases fields@.len() - i,
    {
        proof {
            assert(fields@.skip(i as int)[0] == fields@[i as int]);
        }
        if str_eq(fields[i].0.as_str(), key) {
            return Some(&fields[i].1);
        }
        proof {
            assert(fields@.skip(i as int).drop_first() =~= fields@.skip(i + 1));
        }
        i = i + 1;
    }
    proof {
        assert(fields@.skip(i as int) =~= Seq::<(String, JsonValue)>::empty());
    }
    None
}

/// The source of the media object under `key` (such as `cover`) at the top of the deck
/// document, when it is a string that is not blank.
pub fn root_media_src_of(doc: &JsonValue, key: &str) -> (r: Option<String>)
    ensures
        r.deep_view() == root_media_src(*doc, key@),
{
    let fields = match doc {
        JsonValue::Object(f) => f,
        _ => return None,
    };
    let media = match get_field(fields, key) {
        Some(JsonValue::Object(m)) => m,
        _ => return None,
    };
    match get_field(media, "src") {
        Some(JsonValue::Str(s)) => {
            let t = trim_str(s.as_str());
            if t.as_str().is_empty() {
                None
            } else {
                Some(s.clone())
            }
        },
        _ => None,
    }
}

/// The source of the media object under `key` at the top of the deck document held as
/// text in `raw_json`, when the text is JSON and that source is a string that is not blank.
pub fn root_media_src_from_raw_json(raw_json: &str, key: &str) -> (r: Option<String>)
    ensures
        r.deep_view() == match json_text_parsed(raw_json@) {
            Some(doc) => root_media_src(doc, key@),
            None => None,
        },
{
    match parse_json_text(raw_json) {
        Some(doc) => root_media_src_of(&doc, key),
        None => None,
    }
}

/// The lowercased extension of a lowercased entry name, empty when it has none.
pub open spec fn entry_extension(lower: Seq<char>) -> Seq<char> {
    match std_path_extension(lower) {
        Some(e) => e,
        None => Seq::<char>::empty(),
    }
}

/// Whether a package entry could be the cover: not the deck file, not a directory, and an
/// image the preview can show (judged on the lowercased name).
pub open spec fn cover_candidate(name: Seq<char>) -> bool {
    let lower = unicode_lowercase(name);
    &&& lower != "deck.json"@
    &&& !ends_with_seq(lower, seq!['/'])
    &&& supported_image_extension(entry_extension(lower))
}

/// How cover-like an entry name is, smaller being better: a name with `cover`, then one
/// with `thumbnail` or `thumb`, then one at the package root, then the rest (judged on the
/// lowercased name).
pub open spec fn cover_rank(name: Seq<char>) -> nat {
    let lower = unicode_lowercase(name);
    if contains_seq(lower, "cover"@) {
        0
    } else if contains_seq(lower, "thumbnail"@) || contains_seq(lower, "thumb"@) {
        1
    } else if !contains_seq(lower, seq!['/']) {
        2
    } else {
        3
    }
}

fn is_cover_candidate(name: &str) -> (r: bool)
    ensures
        r == cover_candidate(name@),
{
    let lower = to_lowercase(name);
    if str_eq(lower.as_str(), "deck.json") {
        return false;
    }
    proof {
        reveal_strlit("/");
        assert("/"@ =~= seq!['/']);
    }
    if str_ends_with(lower.as_str(), "/") {
        return false;
    }
    let ext = match path_extension(lower.as_str()) {
        Some(e) => e,
        None => String::new(),
    };
    is_supported_image_extension(ext.as_str())
}

fn rank_of(name: &str) -> (r: u8)
    ensures
        r as nat == cover_rank(name@),
{
    let lower = to_lowercase(name);
    let chars = chars_of(lower.as_str());
    let cover = chars_of("cover");
    if contains_chars(&chars, &cover) {
        return 0;
    }
    let thumbnail = chars_of("thumbnail");
    let thumb = chars_of("thumb");
    if contains_chars(&chars, &thumbnail) || contains_chars(&chars, &thumb) {
        return 1;
    }
    let mut slash: Vec<char> = Vec::new();
    slash.push('/');
    assert(slash@ =~= seq!['/']);
    if !contains_chars(&chars, &slash) {
        2
    } else {
        3
    }
}

/// The entry of a package that the deck view takes as its cover when the deck names none:
/// among the entries that could be a cover, the first of the most cover-like ones.
pub fn pick_cover_image(names: &Vec<String>) -> (r: Option<String>)
    ensures
        match r {
            Some(n) => exists|i: int|
                #![trigger names@[i]]
                0 <= i < names@.len() && cover_candidate(names@[i]@) && n@ == names@[i]@ && (forall|
                    j: int,
                |
                    0 <= j < names@.len() && cover_candidate(#[trigger] names@[j]@) ==> cover_rank(
                        names@[j]@,
                    ) >= cover_rank(names@[i]@)) && (forall|j: int|
                    0 <= j < i && cover_candidate(#[trigger] names@[j]@) ==> cover_rank(names@[j]@)
                        > cover_rank(names@[i]@)),
            None => forall|j: int| 0 <= j < names@.len() ==> !cover_candidate(#[trigger] names@[j]@),
        },
{
    let mut best: Option<(usize, u8)> = None;
    let mut i: usize = 0;
    while i < names.len()
        invariant
            i <= names@.len(),
            match best {
                Some((b, rank)) => {
                    &&& b < i
                    &&& cover_candidate(names@[b as int]@)
                    &&& rank as nat == cover_rank(names@[b as int]@)
                    &&& forall|j: int|
                        0 <= j < i && cover_candidate(#[trigger] names@[j]@) ==> cover_rank(
                            names@[j]@,
                        ) >= rank
                    &&& forall|j: int|
                        0 <= j < b && cover_candidate(#[trigger] names@[j]@) ==> cover_rank(
                            names@[j]@,
                        ) > rank
                },
                None => forall|j: int| 0 <= j < i ==> !cover_candidate(#[trigger] names@[j]@),
            },
        decreases names@.len() - i,
    {
        if is_cover_candidate(names[i].as_str()) {
            let rank = rank_of(names[i].as_str());
            match best {
                Some((b, best_rank)) => {
                    if rank < best_rank {
                        best = Some((i, rank));
                    }
                },
                None => {
                    best = Some((i, rank));
                },
            }
        }
        i = i + 1;
    }
    match best {
        Some((b, _)) => Some(names[b].clone()),
        None => None,
    }
}

/// The cover the deck view shows: the deck's own cover, else the one the deck document
/// names, else the one found in the package.
pub fn active_cover(
    model: Option<String>,
    document: Option<String>,
    discovered: Option<String>,
) -> (r: Option<String>)
    ensures
        r == match model {
            Some(m) => Some(m),
            None => match document {
                Some(d) => Some(d),
                None => discovered,
            },
        },
{
    match model {
        Some(m) => Some(m),
        None => match document {
            Some(d) => Some(d),
            None => discovered,
        },
    }
}

/// The cover reference a deck gets from an image: the image at `path` in the role
/// `cover`, with `alt` as its alternative text.
pub open spec fn cover_media(path: Seq<char>, alt: Option<Seq<char>>) -> MediaInfoModel {
    MediaInfoModel {
        id: None,
        src: path,
        media_type: "image"@,
        role: Some("cover"@),
        alt: alt,
        description: None,
    }
}

/// The alternative text of a cover image dropped onto the deck view.
pub open spec fn dropped_cover_alt() -> Seq<char> {
    "Deck cover image"@
}

/// Makes the image at `path` the deck's cover, recording the state for undo: a dropped
/// image gets `Deck cover image` as its alternative text, an image adopted from the
/// package none.
pub fn set_cover(app: &mut MFlashStudioApp, path: String, dropped: bool)
    ensures
        MFlashStudioApp::edit_recorded(*old(app), *final(app)),
        final(app).raw_schema_text == old(app).raw_schema_text,
        final(app).json_error == old(app).json_error,
        final(app).selected_index == old(app).selected_index,
        final(app).same_settings(&*old(app)),
        old(app).deck is None ==> final(app).deck is None,
        old(app).deck is Some ==> {
            &&& final(app).deck is Some
            &&& deck_model(*final(app)) == (DeckModel {
                cover: Some(
                    cover_media(
                        path@,
                        if dropped {
                            Some(dropped_cover_alt())
                        } else {
                            None
                        },
                    ),
                ),
                ..deck_model(*old(app))
            })
        },
{
    app.push_snapshot();
    let alt = if dropped {
        Some(String::from_str("Deck cover image"))
    } else {
        None
    };
    let media = MediaInfo {
        id: None,
        src: path,
        media_type: String::from_str("image"),
        role: Some(String::from_str("cover")),
        alt,
        description: None,
    };
    match &mut app.deck {
        Some(deck) => {
            deck.cover = Some(media);
        },
        None => {},
    }
}

/// Whether the deck view offers to adopt the cover it found in the package: the cover
/// shown is the one found, and the deck has no cover of its own.
pub fn offers_discovered_cover(
    discovered: &Option<String>,
    shown: &String,
    deck_has_cover: bool,
) -> (r: bool)
    ensures
        r == (discovered.deep_view() == Some(shown@) && !deck_has_cover),
{
    match discovered {
        Some(d) => str_eq(d.as_str(), shown.as_str()) && !deck_has_cover,
        None => false,
    }
}

} // verus!
