//! The assets workspace: every media reference of the deck's cards as a row, with its kind
//! told by its file extension, and the filters, labels and counts the workspace shows.

use vstd::prelude::*;
use crate::archive::{path_extension, path_file_name, std_path_extension, std_path_file_name};
use crate::edit::{cards_model, deck_model, with_cards};
use crate::models::{Card, CardModel, MFlashDeck};
use crate::studio::MFlashStudioApp;
use crate::text::{
    ascii_lower, chars_of, contains_seq, decimal, decimal_string, starts_with_seq, str_contains,
    str_eq, string_from, to_lowercase, to_uppercase, trim, trim_str, unicode_lowercase,
    unicode_uppercase,
};

verus! {

/// What kind of file a media reference points to.
pub enum AssetKind {
    Image,
    Gif,
    Svg,
    Audio,
    Video,
    Font,
    Data,
    File,
    /// Any other extension, lowercased.
    Other(String),
}

/// Content of an [`AssetKind`].
pub enum AssetKindModel {
    Image,
    Gif,
    Svg,
    Audio,
    Video,
    Font,
    Data,
    File,
    Other(Seq<char>),
}

impl View for AssetKind {
    type V = AssetKindModel;

    open spec fn view(&self) -> AssetKindModel {
        match self {
            AssetKind::Image => AssetKindModel::Image,
            AssetKind::Gif => AssetKindModel::Gif,
            AssetKind::Svg => AssetKindModel::Svg,
            AssetKind::Audio => AssetKindModel::Audio,
            AssetKind::Video => AssetKindModel::Video,
            AssetKind::Font => AssetKindModel::Font,
            AssetKind::Data => AssetKindModel::Data,
            AssetKind::File => AssetKindModel::File,
            AssetKind::Other(ext) => AssetKindModel::Other(ext@),
        }
    }
}

impl Clone for AssetKind {
    fn clone(&self) -> (r: Self)
        ensures
            r@ == self@,
    {
        match self {
            AssetKind::Image => AssetKind::Image,
            AssetKind::Gif => AssetKind::Gif,
            AssetKind::Svg => AssetKind::Svg,
            AssetKind::Audio => AssetKind::Audio,
            AssetKind::Video => AssetKind::Video,
            AssetKind::Font => AssetKind::Font,
            AssetKind::Data => AssetKind::Data,
            AssetKind::File => AssetKind::File,
            AssetKind::Other(ext) => AssetKind::Other(ext.clone()),
        }
    }
}

/// The name a kind is shown under.
pub open spec fn kind_label(k: AssetKindModel) -> Seq<char> {
    match k {
        AssetKindModel::Image => "Image"@,
        AssetKindModel::Gif => "GIF"@,
        AssetKindModel::Svg => "SVG"@,
        AssetKindModel::Audio => "Audio"@,
        AssetKindModel::Video => "Video"@,
        AssetKindModel::Font => "Font"@,
        AssetKindModel::Data => "Data"@,
        AssetKindModel::File => "File"@,
        AssetKindModel::Other(ext) => unicode_uppercase(ext),
    }
}

/// The symbol a kind is shown with when there is no preview.
pub open spec fn kind_icon(k: AssetKindModel) -> Seq<char> {
    match k {
        AssetKindModel::Image => "🖼"@,
        AssetKindModel::Gif => "🎞"@,
        AssetKindModel::Svg => "◇"@,
        AssetKindModel::Audio => "♪"@,
        AssetKindModel::Video => "▶"@,
        AssetKindModel::Font => "Aa"@,
        AssetKindModel::Data => "{}"@,
        AssetKindModel::File => "□"@,
        AssetKindModel::Other(_) => "?"@,
    }
}

/// The view-filter key a kind is listed under.
pub open spec fn kind_filter_key(k: AssetKindModel) -> Seq<char> {
    match k {
        AssetKindModel::Image => "images"@,
        AssetKindModel::Gif => "gifs"@,
        AssetKindModel::Svg => "svgs"@,
        AssetKindModel::Audio => "audio"@,
        AssetKindModel::Video => "video"@,
        AssetKindModel::Font => "fonts"@,
        AssetKindModel::Data => "data"@,
        AssetKindModel::File => "files"@,
        AssetKindModel::Other(_) => "other"@,
    }
}

/// The characters of the kinds' fixed labels and filter keys.
proof fn lemma_kind_name_chars()
    ensures
        "Image"@.len() == 5 && "Image"@[0] == 'I' && "Image"@[1] == 'm' && "Image"@[2] == 'a' && "Image"@[3] == 'g' && "Image"@[4] == 'e',
        "GIF"@.len() == 3 && "GIF"@[0] == 'G' && "GIF"@[1] == 'I' && "GIF"@[2] == 'F',
        "SVG"@.len() == 3 && "SVG"@[0] == 'S' && "SVG"@[1] == 'V' && "SVG"@[2] == 'G',
        "Audio"@.len() == 5 && "Audio"@[0] == 'A' && "Audio"@[1] == 'u' && "Audio"@[2] == 'd' && "Audio"@[3] == 'i' && "Audio"@[4] == 'o',
        "Video"@.len() == 5 && "Video"@[0] == 'V' && "Video"@[1] == 'i' && "Video"@[2] == 'd' && "Video"@[3] == 'e' && "Video"@[4] == 'o',
        "Font"@.len() == 4 && "Font"@[0] == 'F' && "Font"@[1] == 'o' && "Font"@[2] == 'n' && "Font"@[3] == 't',
        "Data"@.len() == 4 && "Data"@[0] == 'D' && "Data"@[1] == 'a' && "Data"@[2] == 't' && "Data"@[3] == 'a',
        "File"@.len() == 4 && "File"@[0] == 'F' && "File"@[1] == 'i' && "File"@[2] == 'l' && "File"@[3] == 'e',
        "images"@.len() == 6 && "images"@[0] == 'i' && "images"@[1] == 'm' && "images"@[2] == 'a' && "images"@[3] == 'g' && "images"@[4] == 'e' && "images"@[5] == 's',
        "gifs"@.len() == 4 && "gifs"@[0] == 'g' && "gifs"@[1] == 'i' && "gifs"@[2] == 'f' && "gifs"@[3] == 's',
        "svgs"@.len() == 4 && "svgs"@[0] == 's' && "svgs"@[1] == 'v' && "svgs"@[2] == 'g' && "svgs"@[3] == 's',
        "audio"@.len() == 5 && "audio"@[0] == 'a' && "audio"@[1] == 'u' && "audio"@[2] == 'd' && "audio"@[3] == 'i' && "audio"@[4] == 'o',
        "video"@.len() == 5 && "video"@[0] == 'v' && "video"@[1] == 'i' && "video"@[2] == 'd' && "video"@[3] == 'e' && "video"@[4] == 'o',
        "fonts"@.len() == 5 && "fonts"@[0] == 'f' && "fonts"@[1] == 'o' && "fonts"@[2] == 'n' && "fonts"@[3] == 't' && "fonts"@[4] == 's',
        "data"@.len() == 4 && "data"@[0] == 'd' && "data"@[1] == 'a' && "data"@[2] == 't' && "data"@[3] == 'a',
        "files"@.len() == 5 && "files"@[0] == 'f' && "files"@[1] == 'i' && "files"@[2] == 'l' && "files"@[3] == 'e' && "files"@[4] == 's',
{
    reveal_strlit("Image");
    reveal_strlit("GIF");
    reveal_strlit("SVG");
    reveal_strlit("Audio");
    reveal_strlit("Video");
    reveal_strlit("Font");
    reveal_strlit("Data");
    reveal_strlit("File");
    reveal_strlit("images");
    reveal_strlit("gifs");
    reveal_strlit("svgs");
    reveal_strlit("audio");
    reveal_strlit("video");
    reveal_strlit("fonts");
    reveal_strlit("data");
    reveal_strlit("files");
}

/// Whether a kind has a fixed label (every kind but `Other`).
pub open spec fn has_fixed_label(k: AssetKindModel) -> bool {
    !(k is Other)
}

/// Each kind with a fixed label is listed under a filter key that begins with its label in
/// small letters (`Audio` under `audio`, `Image` under `images`), and two different such
/// kinds have different labels and different filter keys.
pub proof fn lemma_kind_labels_and_keys(a: AssetKindModel, b: AssetKindModel)
    ensures
        has_fixed_label(a) ==> starts_with_seq(kind_filter_key(a), ascii_lower(kind_label(a))),
        has_fixed_label(a) && has_fixed_label(b) && a != b ==> kind_label(a) != kind_label(b)
            && kind_filter_key(a) != kind_filter_key(b),
{
    lemma_kind_name_chars();
    if has_fixed_label(a) {
        let l = ascii_lower(kind_label(a));
        assert(l.len() == kind_label(a).len());
        assert(forall|i: int| 0 <= i < l.len() ==> l[i] == kind_filter_key(a)[i]);
        assert(kind_filter_key(a).subrange(0, l.len() as int) =~= l);
    }
}

impl AssetKind {
    /// The name the kind is shown under: a fixed name, or the extension in capitals.
    pub fn label(&self) -> (r: String)
        ensures
            r@ == kind_label(self@),
    {
        match self {
            AssetKind::Image => String::from_str("Image"),
            AssetKind::Gif => String::from_str("GIF"),
            AssetKind::Svg => String::from_str("SVG"),
            AssetKind::Audio => String::from_str("Audio"),
            AssetKind::Video => String::from_str("Video"),
            AssetKind::Font => String::from_str("Font"),
            AssetKind::Data => String::from_str("Data"),
            AssetKind::File => String::from_str("File"),
            AssetKind::Other(ext) => to_uppercase(ext.as_str()),
        }
    }

    /// The symbol the kind is shown with when there is no preview.
    pub fn icon(&self) -> (r: &'static str)
        ensures
            r@ == kind_icon(self@),
    {
        match self {
            AssetKind::Image => "🖼",
            AssetKind::Gif => "🎞",
            AssetKind::Svg => "◇",
            AssetKind::Audio => "♪",
            AssetKind::Video => "▶",
            AssetKind::Font => "Aa",
            AssetKind::Data => "{}",
            AssetKind::File => "□",
            AssetKind::Other(_) => "?",
        }
    }

    /// Whether the kind can be previewed as a thumbnail: still images and GIFs.
    pub fn can_thumbnail(&self) -> (r: bool)
        ensures
            r == (self@ is Image || self@ is Gif),
    {
        match self {
            AssetKind::Image => true,
            AssetKind::Gif => true,
            _ => false,
        }
    }

    /// The view-filter key the kind is listed under.
    pub fn filter_key(&self) -> (r: &'static str)
        ensures
            r@ == kind_filter_key(self@),
    {
        match self {
            AssetKind::Image => "images",
            AssetKind::Gif => "gifs",
            AssetKind::Svg => "svgs",
            AssetKind::Audio => "audio",
            AssetKind::Video => "video",
            AssetKind::Font => "fonts",
            AssetKind::Data => "data",
            AssetKind::File => "files",
            AssetKind::Other(_) => "other",
        }
    }
}

/// The kind of a file with the given lowercased extension.
pub open spec fn kind_of_extension(ext: Seq<char>) -> AssetKindModel {
    if ext == "png"@ || ext == "jpg"@ || ext == "jpeg"@ || ext == "webp"@ || ext == "bmp"@ || ext
        == "tiff"@ || ext == "avif"@ {
        AssetKindModel::Image
    } else if ext == "gif"@ {
        AssetKindModel::Gif
    } else if ext == "svg"@ {
        AssetKindModel::Svg
    } else if ext == "mp3"@ || ext == "wav"@ || ext == "ogg"@ || ext == "flac"@ || ext == "m4a"@
        || ext == "aac"@ {
        AssetKindModel::Audio
    } else if ext == "mp4"@ || ext == "webm"@ || ext == "mov"@ || ext == "mkv"@ || ext == "avi"@ {
        AssetKindModel::Video
    } else if ext == "ttf"@ || ext == "otf"@ || ext == "woff"@ || ext == "woff2"@ {
        AssetKindModel::Font
    } else if ext == "json"@ || ext == "toml"@ || ext == "yaml"@ || ext == "yml"@ || ext == "xml"@ {
        AssetKindModel::Data
    } else if ext.len() == 0 {
        AssetKindModel::File
    } else {
        AssetKindModel::Other(ext)
    }
}

/// The extensions of image files.
pub open spec fn image_extensions() -> Seq<Seq<char>> {
    seq!["png"@, "jpg"@, "jpeg"@, "webp"@, "bmp"@, "tiff"@, "avif"@]
}

/// The extensions of audio files.
pub open spec fn audio_extensions() -> Seq<Seq<char>> {
    seq!["mp3"@, "wav"@, "ogg"@, "flac"@, "m4a"@, "aac"@]
}

/// The extensions of video files.
pub open spec fn video_extensions() -> Seq<Seq<char>> {
    seq!["mp4"@, "webm"@, "mov"@, "mkv"@, "avi"@]
}

/// The extensions of font files.
pub open spec fn font_extensions() -> Seq<Seq<char>> {
    seq!["ttf"@, "otf"@, "woff"@, "woff2"@]
}

/// The extensions of data files.
pub open spec fn data_extensions() -> Seq<Seq<char>> {
    seq!["json"@, "toml"@, "yaml"@, "yml"@, "xml"@]
}

/// The characters of the extensions that classifying knows.
proof fn lemma_extension_literal_chars()
    ensures
        "aac"@.len() == 3 && "aac"@[0] == 'a' && "aac"@[1] == 'a' && "aac"@[2] == 'c',
        "avi"@.len() == 3 && "avi"@[0] == 'a' && "avi"@[1] == 'v' && "avi"@[2] == 'i',
        "avif"@.len() == 4 && "avif"@[0] == 'a' && "avif"@[1] == 'v' && "avif"@[2] == 'i' && "avif"@[3] == 'f',
        "bmp"@.len() == 3 && "bmp"@[0] == 'b' && "bmp"@[1] == 'm' && "bmp"@[2] == 'p',
        "flac"@.len() == 4 && "flac"@[0] == 'f' && "flac"@[1] == 'l' && "flac"@[2] == 'a' && "flac"@[3] == 'c',
        "gif"@.len() == 3 && "gif"@[0] == 'g' && "gif"@[1] == 'i' && "gif"@[2] == 'f',
        "jpeg"@.len() == 4 && "jpeg"@[0] == 'j' && "jpeg"@[1] == 'p' && "jpeg"@[2] == 'e' && "jpeg"@[3] == 'g',
        "jpg"@.len() == 3 && "jpg"@[0] == 'j' && "jpg"@[1] == 'p' && "jpg"@[2] == 'g',
        "json"@.len() == 4 && "json"@[0] == 'j' && "json"@[1] == 's' && "json"@[2] == 'o' && "json"@[3] == 'n',
        "m4a"@.len() == 3 && "m4a"@[0] == 'm' && "m4a"@[1] == '4' && "m4a"@[2] == 'a',
        "mkv"@.len() == 3 && "mkv"@[0] == 'm' && "mkv"@[1] == 'k' && "mkv"@[2] == 'v',
        "mov"@.len() == 3 && "mov"@[0] == 'm' && "mov"@[1] == 'o' && "mov"@[2] == 'v',
        "mp3"@.len() == 3 && "mp3"@[0] == 'm' && "mp3"@[1] == 'p' && "mp3"@[2] == '3',
        "mp4"@.len() == 3 && "mp4"@[0] == 'm' && "mp4"@[1] == 'p' && "mp4"@[2] == '4',
        "ogg"@.len() == 3 && "ogg"@[0] == 'o' && "ogg"@[1] == 'g' && "ogg"@[2] == 'g',
        "otf"@.len() == 3 && "otf"@[0] == 'o' && "otf"@[1] == 't' && "otf"@[2] == 'f',
        "png"@.len() == 3 && "png"@[0] == 'p' && "png"@[1] == 'n' && "png"@[2] == 'g',
        "svg"@.len() == 3 && "svg"@[0] == 's' && "svg"@[1] == 'v' && "svg"@[2] == 'g',
        "tiff"@.len() == 4 && "tiff"@[0] == 't' && "tiff"@[1] == 'i' && "tiff"@[2] == 'f' && "tiff"@[3] == 'f',
        "toml"@.len() == 4 && "toml"@[0] == 't' && "toml"@[1] == 'o' && "toml"@[2] == 'm' && "toml"@[3] == 'l',
        "ttf"@.len() == 3 && "ttf"@[0] == 't' && "ttf"@[1] == 't' && "ttf"@[2] == 'f',
        "wav"@.len() == 3 && "wav"@[0] == 'w' && "wav"@[1] == 'a' && "wav"@[2] == 'v',
        "webm"@.len() == 4 && "webm"@[0] == 'w' && "webm"@[1] == 'e' && "webm"@[2] == 'b' && "webm"@[3] == 'm',
        "webp"@.len() == 4 && "webp"@[0] == 'w' && "webp"@[1] == 'e' && "webp"@[2] == 'b' && "webp"@[3] == 'p',
        "woff"@.len() == 4 && "woff"@[0] == 'w' && "woff"@[1] == 'o' && "woff"@[2] == 'f' && "woff"@[3] == 'f',
        "woff2"@.len() == 5 && "woff2"@[0] == 'w' && "woff2"@[1] == 'o' && "woff2"@[2] == 'f' && "woff2"@[3] == 'f' && "woff2"@[4] == '2',
        "xml"@.len() == 3 && "xml"@[0] == 'x' && "xml"@[1] == 'm' && "xml"@[2] == 'l',
        "yaml"@.len() == 4 && "yaml"@[0] == 'y' && "yaml"@[1] == 'a' && "yaml"@[2] == 'm' && "yaml"@[3] == 'l',
        "yml"@.len() == 3 && "yml"@[0] == 'y' && "yml"@[1] == 'm' && "yml"@[2] == 'l',
{
    reveal_strlit("aac");
    reveal_strlit("avi");
    reveal_strlit("avif");
    reveal_strlit("bmp");
    reveal_strlit("flac");
    reveal_strlit("gif");
    reveal_strlit("jpeg");
    reveal_strlit("jpg");
    reveal_strlit("json");
    reveal_strlit("m4a");
    reveal_strlit("mkv");
    reveal_strlit("mov");
    reveal_strlit("mp3");
    reveal_strlit("mp4");
    reveal_strlit("ogg");
    reveal_strlit("otf");
    reveal_strlit("png");
    reveal_strlit("svg");
    reveal_strlit("tiff");
    reveal_strlit("toml");
    reveal_strlit("ttf");
    reveal_strlit("wav");
    reveal_strlit("webm");
    reveal_strlit("webp");
    reveal_strlit("woff");
    reveal_strlit("woff2");
    reveal_strlit("xml");
    reveal_strlit("yaml");
    reveal_strlit("yml");
}

/// Classifying by extension: every extension of an image, audio, video, font or data file
/// gives that kind, `gif` and `svg` give their own kinds, no extension gives a plain file,
/// and any other extension is kept as it is.
pub proof fn lemma_extension_kinds(ext: Seq<char>)
    ensures
        image_extensions().contains(ext) ==> kind_of_extension(ext) == AssetKindModel::Image,
        audio_extensions().contains(ext) ==> kind_of_extension(ext) == AssetKindModel::Audio,
        video_extensions().contains(ext) ==> kind_of_extension(ext) == AssetKindModel::Video,
        font_extensions().contains(ext) ==> kind_of_extension(ext) == AssetKindModel::Font,
        data_extensions().contains(ext) ==> kind_of_extension(ext) == AssetKindModel::Data,
        ext == "gif"@ ==> kind_of_extension(ext) == AssetKindModel::Gif,
        ext == "svg"@ ==> kind_of_extension(ext) == AssetKindModel::Svg,
        ext.len() == 0 ==> kind_of_extension(ext) == AssetKindModel::File,
        !image_extensions().contains(ext) && !audio_extensions().contains(ext)
            && !video_extensions().contains(ext) && !font_extensions().contains(ext)
            && !data_extensions().contains(ext) && ext != "gif"@ && ext != "svg"@ && ext.len() > 0
            ==> kind_of_extension(ext) == AssetKindModel::Other(ext),
{
    lemma_extension_literal_chars();
    assert(image_extensions()[0] == "png"@);
    assert(image_extensions()[1] == "jpg"@);
    assert(image_extensions()[2] == "jpeg"@);
    assert(image_extensions()[3] == "webp"@);
    assert(image_extensions()[4] == "bmp"@);
    assert(image_extensions()[5] == "tiff"@);
    assert(image_extensions()[6] == "avif"@);
    if image_extensions().contains(ext) {
        let i = choose|i: int| 0 <= i < image_extensions().len() && image_extensions()[i] == ext;
        assert(i == 0 || i == 1 || i == 2 || i == 3 || i == 4 || i == 5 || i == 6);
    }
    assert(audio_extensions()[0] == "mp3"@);
    assert(audio_extensions()[1] == "wav"@);
    assert(audio_extensions()[2] == "ogg"@);
    assert(audio_extensions()[3] == "flac"@);
    assert(audio_extensions()[4] == "m4a"@);
    assert(audio_extensions()[5] == "aac"@);
    if audio_extensions().contains(ext) {
        let i = choose|i: int| 0 <= i < audio_extensions().len() && audio_extensions()[i] == ext;
        assert(i == 0 || i == 1 || i == 2 || i == 3 || i == 4 || i == 5);
    }
    assert(video_extensions()[0] == "mp4"@);
    assert(video_extensions()[1] == "webm"@);
    assert(video_extensions()[2] == "mov"@);
    assert(video_extensions()[3] == "mkv"@);
    assert(video_extensions()[4] == "avi"@);
    if video_extensions().contains(ext) {
        let i = choose|i: int| 0 <= i < video_extensions().len() && video_extensions()[i] == ext;
        assert(i == 0 || i == 1 || i == 2 || i == 3 || i == 4);
    }
    assert(font_extensions()[0] == "ttf"@);
    assert(font_extensions()[1] == "otf"@);
    assert(font_extensions()[2] == "woff"@);
    assert(font_extensions()[3] == "woff2"@);
    if font_extensions().contains(ext) {
        let i = choose|i: int| 0 <= i < font_extensions().len() && font_extensions()[i] == ext;
        assert(i == 0 || i == 1 || i == 2 || i == 3);
    }
    assert(data_extensions()[0] == "json"@);
    assert(data_extensions()[1] == "toml"@);
    assert(data_extensions()[2] == "yaml"@);
    assert(data_extensions()[3] == "yml"@);
    assert(data_extensions()[4] == "xml"@);
    if data_extensions().contains(ext) {
        let i = choose|i: int| 0 <= i < data_extensions().len() && data_extensions()[i] == ext;
        assert(i == 0 || i == 1 || i == 2 || i == 3 || i == 4);
    }
}

/// The lowercased extension of a media source, empty when it has none.
pub open spec fn source_extension(src: Seq<char>) -> Seq<char> {
    unicode_lowercase(
        match std_path_extension(src) {
            Some(e) => e,
            None => seq![],
        },
    )
}

/// The kind of the file a media source points to, told by its extension.
pub open spec fn kind_of_source(src: Seq<char>) -> AssetKindModel {
    kind_of_extension(source_extension(src))
}

fn one_of3(s: &str, a: &str, b: &str, c: &str) -> (r: bool)
    ensures
        r == (s@ == a@ || s@ == b@ || s@ == c@),
{
    str_eq(s, a) || str_eq(s, b) || str_eq(s, c)
}

fn kind_of_lowercase_extension(ext: String) -> (k: AssetKind)
    ensures
        k@ == kind_of_extension(ext@),
{
    let e = ext.as_str();
    if one_of3(e, "png", "jpg", "jpeg") || one_of3(e, "webp", "bmp", "tiff") || str_eq(e, "avif") {
        AssetKind::Image
    } else if str_eq(e, "gif") {
        AssetKind::Gif
    } else if str_eq(e, "svg") {
        AssetKind::Svg
    } else if one_of3(e, "mp3", "wav", "ogg") || one_of3(e, "flac", "m4a", "aac") {
        AssetKind::Audio
    } else if one_of3(e, "mp4", "webm", "mov") || str_eq(e, "mkv") || str_eq(e, "avi") {
        AssetKind::Video
    } else if one_of3(e, "ttf", "otf", "woff") || str_eq(e, "woff2") {
        AssetKind::Font
    } else if one_of3(e, "json", "toml", "yaml") || str_eq(e, "yml") || str_eq(e, "xml") {
        AssetKind::Data
    } else if e.is_empty() {
        AssetKind::File
    } else {
        AssetKind::Other(ext)
    }
}

/// The kind of the file a media source points to, told by its lowercased extension.
pub fn classify_asset(src: &str) -> (k: AssetKind)
    ensures
        k@ == kind_of_source(src@),
{
    let ext = match path_extension(src) {
        Some(e) => e,
        None => String::new(),
    };
    let lower = to_lowercase(ext.as_str());
    kind_of_lowercase_extension(lower)
}

/// The file name of a media source, or the source itself when it has none.
pub open spec fn source_file_name(src: Seq<char>) -> Seq<char> {
    match std_path_file_name(src) {
        Some(n) => n,
        None => src,
    }
}

/// The file name of a media source, or the source itself when it has none.
pub fn asset_file_name(src: &str) -> (r: String)
    ensures
        r@ == source_file_name(src@),
{
    match path_file_name(src) {
        Some(n) => n,
        None => String::from_str(src),
    }
}

/// `s` shortened to `max` characters by cutting out its middle: unchanged when it fits,
/// `...` alone when `max` is at most 3, else the first `(max - 3) / 2` characters, `...`
/// and the last `max - 3 - (max - 3) / 2` characters.
pub open spec fn middle_truncated(s: Seq<char>, max: nat) -> Seq<char> {
    if s.len() <= max {
        s
    } else if max <= 3 {
        seq!['.', '.', '.']
    } else {
        let left = (max - 3) as nat / 2;
        let right = (max - 3 - left) as nat;
        s.subrange(0, left as int) + seq!['.', '.', '.'] + s.subrange(
            s.len() - right,
            s.len() as int,
        )
    }
}

/// Shortens `input` to `max_chars` characters by cutting out its middle.
pub fn truncate_middle(input: &str, max_chars: usize) -> (r: String)
    ensures
        r@ == middle_truncated(input@, max_chars as nat),
{
    let chars = chars_of(input);
    let n = chars.len();
    if n <= max_chars {
        return String::from_str(input);
    }
    let mut out: Vec<char> = Vec::new();
    if max_chars <= 3 {
        out.push('.');
        out.push('.');
        out.push('.');
        assert(out@ =~= middle_truncated(input@, max_chars as nat));
        return string_from(&out);
    }
    let left = (max_chars - 3) / 2;
    let right = max_chars - 3 - left;
    let mut i: usize = 0;
    while i < left
        invariant
            i <= left,
            left < n,
            n == chars.len(),
            chars@ == input@,
            out@ == chars@.subrange(0, i as int),
        decreases left - i,
    {
        out.push(chars[i]);
        i = i + 1;
        assert(out@ =~= chars@.subrange(0, i as int));
    }
    out.push('.');
    out.push('.');
    out.push('.');
    let ghost mid = out@;
    let mut j: usize = n - right;
    while j < n
        invariant
            right <= n,
            n - right <= j <= n,
            n == chars.len(),
            chars@ == input@,
            out@ == mid + chars@.subrange(n - right, j as int),
        decreases n - j,
    {
        out.push(chars[j]);
        j = j + 1;
        assert(out@ =~= mid + chars@.subrange(n - right, j as int));
    }
    assert(out@ =~= middle_truncated(input@, max_chars as nat));
    string_from(&out)
}

/// `N: term` for the card at position `card_index`, numbered from 1, with the term cut to 18
/// characters.
pub open spec fn card_label(card_index: nat, card_term: Seq<char>) -> Seq<char> {
    decimal(card_index + 1) + seq![':', ' '] + middle_truncated(card_term, 18)
}

/// The label of a card in an asset tile: its number from 1 and its term, cut to 18
/// characters.
pub fn format_card_label(card_index: usize, card_term: &str) -> (r: String)
    requires
        card_index < usize::MAX,
    ensures
        r@ == card_label(card_index as nat, card_term@),
{
    let mut r = decimal_string(card_index + 1);
    r.append(": ");
    let t = truncate_middle(card_term, 18);
    r.append(t.as_str());
    proof {
        reveal_strlit(": ");
        assert(r@ =~= card_label(card_index as nat, card_term@));
    }
    r
}

/// A media reference of a card, as the assets workspace lists it.
pub struct AssetRow {
    /// The position of the card in the deck.
    pub card_index: usize,
    /// The position of the reference among the card's media.
    pub media_index: usize,
    pub src: String,
    pub kind: AssetKind,
    /// The card's term, or `(Untitled)`.
    pub card_term: String,
}

impl Clone for AssetRow {
    fn clone(&self) -> (r: Self)
        ensures
            r.card_index == self.card_index,
            r.media_index == self.media_index,
            r.src@ == self.src@,
            r.kind@ == self.kind@,
            r.card_term@ == self.card_term@,
    {
        AssetRow {
            card_index: self.card_index,
            media_index: self.media_index,
            src: self.src.clone(),
            kind: self.kind.clone(),
            card_term: self.card_term.clone(),
        }
    }
}

/// Whether an asset is shown under the view filter `filter`: `all` shows every asset, any
/// other key the assets of its kind.
pub open spec fn matches_filter(kind: AssetKindModel, filter: Seq<char>) -> bool {
    filter == "all"@ || kind_filter_key(kind) == filter
}

/// Whether `asset` is shown under the view filter `filter`.
pub fn asset_matches_filter(asset: &AssetRow, filter: &str) -> (r: bool)
    ensures
        r == matches_filter(asset.kind@, filter@),
{
    str_eq(filter, "all") || str_eq(asset.kind.filter_key(), filter)
}

/// The positions (card, media reference) of all media references of `cards`, card by card.
pub open spec fn asset_positions(cards: Seq<CardModel>) -> Seq<(int, int)>
    decreases cards.len(),
{
    if cards.len() == 0 {
        seq![]
    } else {
        let n = cards.len() - 1;
        asset_positions(cards.drop_last()) + Seq::new(cards[n].media.len(), |j: int| (n, j))
    }
}

/// The term an asset row shows for a card.
pub open spec fn shown_term(term: Option<Seq<char>>) -> Seq<char> {
    match term {
        Some(t) => t,
        None => "(Untitled)"@,
    }
}

/// `row` lists the media reference at `pos` of `cards`.
pub open spec fn is_row_for(cards: Seq<CardModel>, row: AssetRow, pos: (int, int)) -> bool {
    &&& row.card_index == pos.0
    &&& row.media_index == pos.1
    &&& row.src@ == cards[pos.0].media[pos.1].src
    &&& row.kind@ == kind_of_source(row.src@)
    &&& row.card_term@ == shown_term(cards[pos.0].term)
}

/// `rows` list the media references of `cards`, card by card.
pub open spec fn rows_for(cards: Seq<CardModel>, rows: Seq<AssetRow>) -> bool {
    let positions = asset_positions(cards);
    &&& rows.len() == positions.len()
    &&& forall|k: int| 0 <= k < rows.len() ==> is_row_for(cards, #[trigger] rows[k], positions[k])
}

proof fn lemma_positions_bounded(cards: Seq<CardModel>)
    ensures
        forall|k: int|
            0 <= k < asset_positions(cards).len() ==> {
                let p = #[trigger] asset_positions(cards)[k];
                0 <= p.0 < cards.len() && 0 <= p.1 < cards[p.0].media.len()
            },
    decreases cards.len(),
{
    if cards.len() > 0 {
        lemma_positions_bounded(cards.drop_last());
        let n = cards.len() - 1;
        let prev = asset_positions(cards.drop_last());
        assert forall|k: int| 0 <= k < asset_positions(cards).len() implies {
            let p = #[trigger] asset_positions(cards)[k];
            0 <= p.0 < cards.len() && 0 <= p.1 < cards[p.0].media.len()
        } by {
            if k < prev.len() {
                assert(asset_positions(cards)[k] == prev[k]);
                assert(cards.drop_last()[prev[k].0] == cards[prev[k].0]);
            }
        }
    }
}

fn push_card_assets(rows: &mut Vec<AssetRow>, card: &Card, card_index: usize)
    ensures
        final(rows)@.len() == old(rows)@.len() + card.media@.len(),
        forall|k: int| 0 <= k < old(rows)@.len() ==> final(rows)@[k] == old(rows)@[k],
        forall|j: int|
            0 <= j < card.media@.len() ==> {
                let row = #[trigger] final(rows)@[old(rows)@.len() + j];
                &&& row.card_index == card_index
                &&& row.media_index == j
                &&& row.src@ == card.media@[j].src@
                &&& row.kind@ == kind_of_source(row.src@)
                &&& row.card_term@ == shown_term(card.term.deep_view())
            },
{
    let card_term = match &card.term {
        Some(t) => t.clone(),
        None => String::from_str("(Untitled)"),
    };
    let mut j: usize = 0;
    while j < card.media.len()
        invariant
            j <= card.media.len(),
            card_term@ == shown_term(card.term.deep_view()),
            rows@.len() == old(rows)@.len() + j,
            forall|k: int| 0 <= k < old(rows)@.len() ==> rows@[k] == old(rows)@[k],
            forall|m: int|
                0 <= m < j ==> {
                    let row = #[trigger] rows@[old(rows)@.len() + m];
                    &&& row.card_index == card_index
                    &&& row.media_index == m
                    &&& row.src@ == card.media@[m].src@
                    &&& row.kind@ == kind_of_source(row.src@)
                    &&& row.card_term@ == shown_term(card.term.deep_view())
                },
        decreases card.media.len() - j,
    {
        let src = card.media[j].src.clone();
        let kind = classify_asset(src.as_str());
        rows.push(AssetRow { card_index, media_index: j, src, kind, card_term: card_term.clone() });
        j = j + 1;
    }
}

/// Every media reference of the open deck's cards, card by card; none without a deck.
pub fn collect_assets(app: &MFlashStudioApp) -> (r: Vec<AssetRow>)
    ensures
        app.deck is None ==> r@.len() == 0,
        app.deck is Some ==> rows_for(cards_model(*app), r@),
{
    let deck = match &app.deck {
        Some(d) => d,
        None => return Vec::new(),
    };
    let ghost cards = deck.cards.deep_view();
    let mut rows: Vec<AssetRow> = Vec::new();
    let mut i: usize = 0;
    while i < deck.cards.len()
        invariant
            i <= deck.cards.len(),
            cards == deck.cards.deep_view(),
            rows_for(cards.subrange(0, i as int), rows@),
        decreases deck.cards.len() - i,
    {
        let ghost before = rows@;
        push_card_assets(&mut rows, &deck.cards[i], i);
        proof {
            let pre = cards.subrange(0, i as int);
            let cur = cards.subrange(0, i + 1);
            assert(cur.drop_last() =~= pre);
            lemma_positions_bounded(pre);
            let positions = asset_positions(cur);
            assert forall|k: int| 0 <= k < rows@.len() implies is_row_for(
                cur,
                #[trigger] rows@[k],
                positions[k],
            ) by {
                if k < before.len() {
                    assert(is_row_for(pre, before[k], asset_positions(pre)[k]));
                    assert(positions[k] == asset_positions(pre)[k]);
                    let p = positions[k];
                    assert(cur[p.0] == pre[p.0]);
                } else {
                    let j = k - before.len();
                    assert(rows@[k] == rows@[before.len() + j]);
                    assert(cur[i as int] == deck.cards@[i as int].deep_view());
                    assert(deck.cards@[i as int].media.deep_view()[j] == deck.cards@[
                        i as int
                    ].media@[j].deep_view());
                }
            }
        }
        i = i + 1;
    }
    assert(cards.subrange(0, deck.cards.len() as int) =~= cards);
    rows
}

/// The state after removing the media reference `media_index` of the card `card_index`,
/// recorded for undo, when both exist; else the state unchanged.
pub open spec fn remove_reference_post(
    old: MFlashStudioApp,
    new: MFlashStudioApp,
    card_index: usize,
    media_index: usize,
    removed: bool,
) -> bool {
    let cards = cards_model(old);
    if old.deck is Some && card_index < cards.len() && media_index < cards[card_index as int].media.len() {
        let c = cards[card_index as int];
        &&& removed
        &&& MFlashStudioApp::edit_recorded(old, new)
        &&& new.deck is Some
        &&& deck_model(new) == with_cards(
            deck_model(old),
            cards.update(card_index as int, CardModel { media: c.media.remove(media_index as int), ..c }),
        )
        &&& new.selected_index == old.selected_index
        &&& new.raw_schema_text == old.raw_schema_text
        &&& new.json_error == old.json_error
        &&& new.same_settings(&old)
    } else {
        !removed && new == old
    }
}

/// Removes the media reference `media_index` from the card `card_index`, recording the
/// state for undo, when both exist. Answers whether a reference was removed.
pub fn remove_asset_reference(app: &mut MFlashStudioApp, card_index: usize, media_index: usize) -> (removed: bool)
    ensures
        remove_reference_post(*old(app), *final(app), card_index, media_index, removed),
{
    let exists = match &app.deck {
        Some(deck) => card_index < deck.cards.len() && media_index < deck.cards[card_index].media.len(),
        None => false,
    };
    if !exists {
        return false;
    }
    app.push_snapshot();
    match &mut app.deck {
        Some(deck) => {
            let ghost old_cards = deck.cards.deep_view();
            let card = &mut deck.cards[card_index];
            let ghost old_media = card.media.deep_view();
            card.media.remove(media_index);
            proof {
                assert(card.media.deep_view() =~= old_media.remove(media_index as int));
                assert(deck.cards.deep_view() =~= old_cards.update(
                    card_index as int,
                    CardModel { media: old_media.remove(media_index as int), ..old_cards[card_index as int] },
                ));
            }
        },
        None => {},
    }
    true
}

/// Content of an [`AssetRow`].
pub struct AssetRowModel {
    pub card_index: usize,
    pub media_index: usize,
    pub src: Seq<char>,
    pub kind: AssetKindModel,
    pub card_term: Seq<char>,
}

impl View for AssetRow {
    type V = AssetRowModel;

    open spec fn view(&self) -> AssetRowModel {
        AssetRowModel {
            card_index: self.card_index,
            media_index: self.media_index,
            src: self.src@,
            kind: self.kind@,
            card_term: self.card_term@,
        }
    }
}

/// Whether a row matches the lowercased search text `search`: an empty search matches
/// everything, else the text must occur in the lowercased source, kind label or card term.
pub open spec fn matches_search(row: AssetRowModel, search: Seq<char>) -> bool {
    ||| search.len() == 0
    ||| contains_seq(unicode_lowercase(row.src), search)
    ||| contains_seq(unicode_lowercase(kind_label(row.kind)), search)
    ||| contains_seq(unicode_lowercase(row.card_term), search)
}

/// Whether the workspace shows `row` under the view filter `filter` and the search box text
/// `query` (compared trimmed and lowercased).
pub open spec fn row_shown(row: AssetRowModel, filter: Seq<char>, query: Seq<char>) -> bool {
    matches_filter(row.kind, filter) && matches_search(row, unicode_lowercase(trim(query)))
}

/// The positions of the rows that the workspace shows, in increasing order.
pub open spec fn shown_positions(rows: Seq<AssetRowModel>, filter: Seq<char>, query: Seq<char>) -> Seq<
    usize,
>
    decreases rows.len(),
{
    if rows.len() == 0 {
        seq![]
    } else {
        let rest = shown_positions(rows.drop_last(), filter, query);
        if row_shown(rows.last(), filter, query) {
            rest.push((rows.len() - 1) as usize)
        } else {
            rest
        }
    }
}

fn row_matches_search(row: &AssetRow, search: &str) -> (r: bool)
    ensures
        r == matches_search(row@, search@),
{
    if search.is_empty() {
        return true;
    }
    let src = to_lowercase(row.src.as_str());
    if str_contains(src.as_str(), search) {
        return true;
    }
    let label = row.kind.label();
    let label_lower = to_lowercase(label.as_str());
    if str_contains(label_lower.as_str(), search) {
        return true;
    }
    let term = to_lowercase(row.card_term.as_str());
    str_contains(term.as_str(), search)
}

/// The positions of the assets shown under the view filter `filter` and the search box
/// text `query`, in their order.
pub fn visible_assets(assets: &Vec<AssetRow>, filter: &str, query: &str) -> (r: Vec<usize>)
    ensures
        r@ == shown_positions(assets@.map_values(|a: AssetRow| a@), filter@, query@),
{
    let trimmed = trim_str(query);
    let search = to_lowercase(trimmed.as_str());
    let ghost rows = assets@.map_values(|a: AssetRow| a@);
    let mut out: Vec<usize> = Vec::new();
    let mut i: usize = 0;
    while i < assets.len()
        invariant
            i <= assets.len(),
            rows == assets@.map_values(|a: AssetRow| a@),
            search@ == unicode_lowercase(trim(query@)),
            out@ == shown_positions(rows.take(i as int), filter@, query@),
        decreases assets.len() - i,
    {
        let ghost prefix = rows.take(i as int);
        if asset_matches_filter(&assets[i], filter) && row_matches_search(&assets[i], search.as_str()) {
            out.push(i);
        }
        i = i + 1;
        proof {
            let next = rows.take(i as int);
            assert(next.drop_last() =~= prefix);
            assert(next.last() == assets@[i - 1]@);
        }
    }
    assert(rows.take(assets.len() as int) =~= rows);
    out
}

/// Whether `a` sorts before `b` as strings do: character by character by code point, a
/// proper prefix first.
pub open spec fn text_lt(a: Seq<char>, b: Seq<char>) -> bool
    decreases a.len(),
{
    if b.len() == 0 {
        false
    } else if a.len() == 0 {
        true
    } else if a[0] != b[0] {
        a[0] < b[0]
    } else {
        text_lt(a.drop_first(), b.drop_first())
    }
}

/// Of two different texts, one sorts before the other, and never both ways.
pub proof fn lemma_text_lt_total(a: Seq<char>, b: Seq<char>)
    ensures
        a != b ==> text_lt(a, b) || text_lt(b, a),
        !(text_lt(a, b) && text_lt(b, a)),
        !text_lt(a, a),
    decreases a.len(),
{
    if a.len() > 0 && b.len() > 0 && a[0] == b[0] {
        lemma_text_lt_total(a.drop_first(), b.drop_first());
        if a != b {
            assert(a =~= seq![a[0]] + a.drop_first());
            assert(b =~= seq![b[0]] + b.drop_first());
        }
    }
    if a.len() > 0 {
        lemma_text_lt_total(a.drop_first(), a.drop_first());
    }
    if a.len() > 0 && b.len() == 0 {
    }
    if a.len() == 0 && b.len() == 0 {
        assert(a =~= b);
    }
}

/// The order of texts is transitive.
pub proof fn lemma_text_lt_transitive(a: Seq<char>, b: Seq<char>, c: Seq<char>)
    requires
        text_lt(a, b),
        text_lt(b, c),
    ensures
        text_lt(a, c),
    decreases a.len(),
{
    if a.len() > 0 && b.len() > 0 && c.len() > 0 && a[0] == b[0] && b[0] == c[0] {
        lemma_text_lt_transitive(a.drop_first(), b.drop_first(), c.drop_first());
    }
}

fn text_less(a: &str, b: &str) -> (r: bool)
    ensures
        r == text_lt(a@, b@),
{
    let x = chars_of(a);
    let y = chars_of(b);
    let mut i: usize = 0;
    assert(x@.skip(0) =~= x@);
    assert(y@.skip(0) =~= y@);
    while i < x.len() && i < y.len()
        invariant
            i <= x.len(),
            i <= y.len(),
            x@ == a@,
            y@ == b@,
            text_lt(x@, y@) == text_lt(x@.skip(i as int), y@.skip(i as int)),
        decreases x.len() - i,
    {
        if x[i] != y[i] {
            proof {
                assert(x@.skip(i as int)[0] == x@[i as int]);
                assert(y@.skip(i as int)[0] == y@[i as int]);
            }
            return x[i] < y[i];
        }
        proof {
            assert(x@.skip(i as int).drop_first() =~= x@.skip(i + 1));
            assert(y@.skip(i as int).drop_first() =~= y@.skip(i + 1));
        }
        i = i + 1;
    }
    i < y.len()
}

/// How many of `labels` are `key`.
pub open spec fn label_count(labels: Seq<Seq<char>>, key: Seq<char>) -> nat
    decreases labels.len(),
{
    if labels.len() == 0 {
        0
    } else {
        label_count(labels.drop_last(), key) + if labels.last() == key {
            1nat
        } else {
            0nat
        }
    }
}

proof fn lemma_label_count_present(labels: Seq<Seq<char>>, key: Seq<char>)
    ensures
        label_count(labels, key) > 0 ==> labels.contains(key),
        label_count(labels, key) <= labels.len(),
    decreases labels.len(),
{
    if labels.len() > 0 {
        lemma_label_count_present(labels.drop_last(), key);
        if label_count(labels.drop_last(), key) > 0 {
            let k = choose|k: int| 0 <= k < labels.drop_last().len() && labels.drop_last()[k] == key;
            assert(labels[k] == key);
        }
        if labels.last() == key {
            assert(labels[labels.len() - 1] == key);
        }
    }
}

/// `summary` lists each label of `labels` once with how many times it occurs, in the order
/// of texts.
pub open spec fn is_label_summary(labels: Seq<Seq<char>>, summary: Seq<(Seq<char>, nat)>) -> bool {
    &&& forall|i: int, j: int|
        0 <= i < j < summary.len() ==> text_lt(#[trigger] summary[i].0, #[trigger] summary[j].0)
    &&& forall|i: int|
        0 <= i < summary.len() ==> (#[trigger] summary[i]).1 == label_count(labels, summary[i].0)
            && summary[i].1 > 0
    &&& forall|k: int|
        0 <= k < labels.len() ==> exists|i: int| 0 <= i < summary.len() && #[trigger] summary[i].0
            == #[trigger] labels[k]
}

/// The labels of the kinds of `assets`, in order.
pub open spec fn asset_labels(assets: Seq<AssetRow>) -> Seq<Seq<char>> {
    assets.map_values(|a: AssetRow| kind_label(a.kind@))
}

/// The mathematical content of a summary.
pub open spec fn summary_view(v: Seq<(String, usize)>) -> Seq<(Seq<char>, nat)> {
    v.map_values(|e: (String, usize)| (e.0@, e.1 as nat))
}

proof fn lemma_summary_step_found(
    labels: Seq<Seq<char>>,
    old_s: Seq<(Seq<char>, nat)>,
    new_s: Seq<(Seq<char>, nat)>,
    p: int,
)
    requires
        labels.len() > 0,
        is_label_summary(labels.drop_last(), old_s),
        0 <= p < old_s.len(),
        old_s[p].0 == labels.last(),
        new_s == old_s.update(p, (old_s[p].0, old_s[p].1 + 1)),
    ensures
        is_label_summary(labels, new_s),
{
    let pre = labels.drop_last();
    let l = labels.last();
    assert forall|i: int| 0 <= i < new_s.len() implies (#[trigger] new_s[i]).1 == label_count(
        labels,
        new_s[i].0,
    ) && new_s[i].1 > 0 by {
        if i != p {
            lemma_text_lt_total(old_s[i].0, l);
            if i < p {
                assert(text_lt(old_s[i].0, old_s[p].0));
            } else {
                assert(text_lt(old_s[p].0, old_s[i].0));
            }
        }
    }
    assert forall|k: int| 0 <= k < labels.len() implies exists|i: int|
        0 <= i < new_s.len() && #[trigger] new_s[i].0 == #[trigger] labels[k] by {
        if k < pre.len() {
            assert(pre[k] == labels[k]);
            let i = choose|i: int| 0 <= i < old_s.len() && #[trigger] old_s[i].0 == pre[k];
            assert(new_s[i].0 == labels[k]);
        } else {
            assert(new_s[p].0 == labels[k]);
        }
    }
}

proof fn lemma_summary_step_insert(
    labels: Seq<Seq<char>>,
    old_s: Seq<(Seq<char>, nat)>,
    new_s: Seq<(Seq<char>, nat)>,
    p: int,
)
    requires
        labels.len() > 0,
        is_label_summary(labels.drop_last(), old_s),
        0 <= p <= old_s.len(),
        forall|j: int| 0 <= j < p ==> text_lt(#[trigger] old_s[j].0, labels.last()),
        p < old_s.len() ==> text_lt(labels.last(), old_s[p].0),
        new_s == old_s.insert(p, (labels.last(), 1nat)),
    ensures
        is_label_summary(labels, new_s),
{
    let pre = labels.drop_last();
    let l = labels.last();
    assert forall|i: int| 0 <= i < old_s.len() implies old_s[i].0 != l by {
        if i < p {
            lemma_text_lt_total(old_s[i].0, l);
        } else {
            if i > p {
                lemma_text_lt_transitive(l, old_s[p].0, old_s[i].0);
            }
            lemma_text_lt_total(l, old_s[i].0);
        }
    }
    lemma_label_count_present(pre, l);
    if label_count(pre, l) > 0 {
        let k = choose|k: int| 0 <= k < pre.len() && pre[k] == l;
        let i = choose|i: int| 0 <= i < old_s.len() && #[trigger] old_s[i].0 == #[trigger] pre[k];
        assert(old_s[i].0 != l);
    }
    assert forall|i: int, j: int| 0 <= i < j < new_s.len() implies text_lt(
        #[trigger] new_s[i].0,
        #[trigger] new_s[j].0,
    ) by {
        if j < p {
            assert(new_s[i] == old_s[i] && new_s[j] == old_s[j]);
        } else if j == p {
            assert(new_s[i] == old_s[i]);
        } else if i < p {
            assert(new_s[i] == old_s[i] && new_s[j] == old_s[j - 1]);
        } else if i == p {
            assert(new_s[j] == old_s[j - 1]);
            if j - 1 > p {
                lemma_text_lt_transitive(l, old_s[p].0, old_s[j - 1].0);
            }
        } else {
            assert(new_s[i] == old_s[i - 1] && new_s[j] == old_s[j - 1]);
        }
    }
    assert forall|i: int| 0 <= i < new_s.len() implies (#[trigger] new_s[i]).1 == label_count(
        labels,
        new_s[i].0,
    ) && new_s[i].1 > 0 by {
        if i < p {
            assert(new_s[i] == old_s[i]);
        } else if i > p {
            assert(new_s[i] == old_s[i - 1]);
        }
    }
    assert forall|k: int| 0 <= k < labels.len() implies exists|i: int|
        0 <= i < new_s.len() && #[trigger] new_s[i].0 == #[trigger] labels[k] by {
        if k < pre.len() {
            assert(pre[k] == labels[k]);
            let i = choose|i: int| 0 <= i < old_s.len() && #[trigger] old_s[i].0 == pre[k];
            if i < p {
                assert(new_s[i].0 == labels[k]);
            } else {
                assert(new_s[i + 1].0 == labels[k]);
            }
        } else {
            assert(new_s[p].0 == labels[k]);
        }
    }
}

fn count_label(
    out: &mut Vec<(String, usize)>,
    label: String,
    Ghost(prev): Ghost<Seq<Seq<char>>>,
)
    requires
        is_label_summary(prev, summary_view(old(out)@)),
        prev.len() < usize::MAX,
    ensures
        is_label_summary(prev.push(label@), summary_view(final(out)@)),
        final(out)@.len() <= old(out)@.len() + 1,
{
    let ghost cur = prev.push(label@);
    proof {
        assert(cur.drop_last() =~= prev);
    }
    let ghost before = summary_view(out@);
    let mut p: usize = 0;
    while p < out.len() && text_less(out[p].0.as_str(), label.as_str())
        invariant
            p <= out.len(),
            before == summary_view(out@),
            forall|j: int| 0 <= j < p ==> text_lt(#[trigger] before[j].0, label@),
        decreases out.len() - p,
    {
        p = p + 1;
    }
    if p < out.len() && str_eq(out[p].0.as_str(), label.as_str()) {
        let entry = out.remove(p);
        proof {
            lemma_label_count_present(prev, label@);
            assert(before[p as int].1 == entry.1);
            assert(before[p as int].1 == label_count(prev, before[p as int].0));
        }
        out.insert(p, (entry.0, entry.1 + 1));
        proof {
            assert(summary_view(out@) =~= before.update(
                p as int,
                (before[p as int].0, before[p as int].1 + 1),
            ));
            lemma_summary_step_found(cur, before, summary_view(out@), p as int);
        }
    } else {
        proof {
            if p < out.len() {
                lemma_text_lt_total(before[p as int].0, label@);
            }
        }
        out.insert(p, (label, 1));
        proof {
            assert(summary_view(out@) =~= before.insert(p as int, (cur.last(), 1nat)));
            lemma_summary_step_insert(cur, before, summary_view(out@), p as int);
        }
    }
}

/// How many assets there are of each kind label, in the order of the labels as texts.
pub fn summarize_assets(assets: &Vec<AssetRow>) -> (r: Vec<(String, usize)>)
    ensures
        is_label_summary(asset_labels(assets@), summary_view(r@)),
{
    let ghost labels = asset_labels(assets@);
    let mut out: Vec<(String, usize)> = Vec::new();
    let mut i: usize = 0;
    assert(labels.take(0) =~= Seq::<Seq<char>>::empty());
    while i < assets.len()
        invariant
            i <= assets.len(),
            labels == asset_labels(assets@),
            is_label_summary(labels.take(i as int), summary_view(out@)),
        decreases assets.len() - i,
    {
        let label = assets[i].kind.label();
        proof {
            assert(labels.take(i + 1) =~= labels.take(i as int).push(label@));
        }
        count_label(&mut out, label, Ghost(labels.take(i as int)));
        i = i + 1;
    }
    assert(labels.take(assets.len() as int) =~= labels);
    out
}

} // verus!
