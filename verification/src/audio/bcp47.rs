//! Language tags for text-to-speech: the table of languages offered to the user, and the
//! normalisation of loosely written language names and codes into BCP-47 tags.

use vstd::prelude::*;
use crate::text::{ascii_lower, lemma_trim_idempotent, str_eq, to_lowercase, trim, trim_str, unicode_lowercase};

verus! {

/// A language the speech engine is offered in: its name for people and its BCP-47 tag.
#[derive(Debug, Clone, Copy, PartialEq, Eq)]
pub struct TtsLanguage {
    pub display_name: &'static str,
    pub bcp_47: &'static str,
}

/// The languages offered for speech, as (display name, tag) pairs, in the order shown.
pub open spec fn supported_language_table() -> Seq<(Seq<char>, Seq<char>)> {
    seq![
        ("English (US)"@, "en-US"@),
        ("English (UK)"@, "en-GB"@),
        ("English (Australia)"@, "en-AU"@),
        ("Spanish (Spain)"@, "es-ES"@),
        ("Spanish (Mexico)"@, "es-MX"@),
        ("French (France)"@, "fr-FR"@),
        ("French (Canada)"@, "fr-CA"@),
        ("German (Germany)"@, "de-DE"@),
        ("Japanese"@, "ja-JP"@),
        ("Korean"@, "ko-KR"@),
        ("Chinese (Mandarin, Simplified)"@, "zh-CN"@),
        ("Chinese (Mandarin, Traditional)"@, "zh-TW"@),
        ("Italian"@, "it-IT"@),
        ("Portuguese (Portugal)"@, "pt-PT"@),
        ("Portuguese (Brazil)"@, "pt-BR"@),
        ("Russian"@, "ru-RU"@),
        ("Dutch"@, "nl-NL"@),
        ("Polish"@, "pl-PL"@),
        ("Latin"@, "la"@),
    ]
}

/// The (display name, tag) pair of a language entry.
pub open spec fn language_entry(l: TtsLanguage) -> (Seq<char>, Seq<char>) {
    (l.display_name@, l.bcp_47@)
}

fn language(display_name: &'static str, bcp_47: &'static str) -> (l: TtsLanguage)
    ensures
        l.display_name@ == display_name@,
        l.bcp_47@ == bcp_47@,
{
    TtsLanguage { display_name, bcp_47 }
}

/// The languages offered for speech, in the order shown.
pub fn supported_languages() -> (r: Vec<TtsLanguage>)
    ensures
        r@.map_values(|l: TtsLanguage| language_entry(l)) == supported_language_table(),
{
    let mut v: Vec<TtsLanguage> = Vec::new();
    v.push(language("English (US)", "en-US"));
    v.push(language("English (UK)", "en-GB"));
    v.push(language("English (Australia)", "en-AU"));
    v.push(language("Spanish (Spain)", "es-ES"));
    v.push(language("Spanish (Mexico)", "es-MX"));
    v.push(language("French (France)", "fr-FR"));
    v.push(language("French (Canada)", "fr-CA"));
    v.push(language("German (Germany)", "de-DE"));
    v.push(language("Japanese", "ja-JP"));
    v.push(language("Korean", "ko-KR"));
    v.push(language("Chinese (Mandarin, Simplified)", "zh-CN"));
    v.push(language("Chinese (Mandarin, Traditional)", "zh-TW"));
    v.push(language("Italian", "it-IT"));
    v.push(language("Portuguese (Portugal)", "pt-PT"));
    v.push(language("Portuguese (Brazil)", "pt-BR"));
    v.push(language("Russian", "ru-RU"));
    v.push(language("Dutch", "nl-NL"));
    v.push(language("Polish", "pl-PL"));
    v.push(language("Latin", "la"));
    assert(v@.map_values(|l: TtsLanguage| language_entry(l)) =~= supported_language_table());
    v
}

/// The tag for an English, Baltic or Nordic name or code, already trimmed and lowercased.
pub open spec fn northern_code(clean: Seq<char>) -> Option<Seq<char>> {
    if clean == "english"@ || clean == "eng"@ || clean == "en"@ || clean == "en-us"@ || clean
        == "en_us"@ {
        Some("en-US"@)
    } else if clean == "english (uk)"@ || clean == "en-gb"@ || clean == "en_gb"@ {
        Some("en-GB"@)
    } else if clean == "estonian"@ || clean == "est"@ || clean == "et"@ || clean == "et-ee"@ {
        Some("et-EE"@)
    } else if clean == "latvian"@ || clean == "lav"@ || clean == "lv"@ || clean == "lv-lv"@ {
        Some("lv-LV"@)
    } else if clean == "lithuanian"@ || clean == "lit"@ || clean == "lt"@ || clean == "lt-lt"@ {
        Some("lt-LT"@)
    } else if clean == "finnish"@ || clean == "fin"@ || clean == "fi"@ || clean == "fi-fi"@ {
        Some("fi-FI"@)
    } else if clean == "swedish"@ || clean == "swe"@ || clean == "sv"@ || clean == "sv-se"@ {
        Some("sv-SE"@)
    } else if clean == "icelandic"@ || clean == "isl"@ || clean == "is"@ || clean == "is-is"@ {
        Some("is-IS"@)
    } else {
        None
    }
}

/// The tag for a Western or Eastern European name or code, already trimmed and lowercased.
pub open spec fn european_code(clean: Seq<char>) -> Option<Seq<char>> {
    if clean == "spanish"@ || clean == "spa"@ || clean == "es"@ || clean == "es-es"@ {
        Some("es-ES"@)
    } else if clean == "french"@ || clean == "fra"@ || clean == "fr"@ || clean == "fr-fr"@ {
        Some("fr-FR"@)
    } else if clean == "german"@ || clean == "deu"@ || clean == "de"@ || clean == "de-de"@ {
        Some("de-DE"@)
    } else if clean == "italian"@ || clean == "ita"@ || clean == "it"@ || clean == "it-it"@ {
        Some("it-IT"@)
    } else if clean == "dutch"@ || clean == "nld"@ || clean == "nl"@ || clean == "nl-nl"@ {
        Some("nl-NL"@)
    } else if clean == "portuguese"@ || clean == "por"@ || clean == "pt"@ || clean == "pt-br"@
        || clean == "pt-pt"@ {
        Some("pt-PT"@)
    } else if clean == "russian"@ || clean == "rus"@ || clean == "ru"@ || clean == "ru-ru"@ {
        Some("ru-RU"@)
    } else if clean == "polish"@ || clean == "pol"@ || clean == "pl"@ || clean == "pl-pl"@ {
        Some("pl-PL"@)
    } else if clean == "ukrainian"@ || clean == "ukr"@ || clean == "uk"@ || clean == "uk-ua"@ {
        Some("uk-UA"@)
    } else {
        None
    }
}

/// The tag for an Asian or classical name or code, already trimmed and lowercased.
pub open spec fn eastern_code(clean: Seq<char>) -> Option<Seq<char>> {
    if clean == "japanese"@ || clean == "jpn"@ || clean == "ja"@ || clean == "ja-jp"@ {
        Some("ja-JP"@)
    } else if clean == "korean"@ || clean == "kor"@ || clean == "ko"@ || clean == "ko-kr"@ {
        Some("ko-KR"@)
    } else if clean == "chinese"@ || clean == "mandarin"@ || clean == "zho"@ || clean == "zh"@
        || clean == "zh-cn"@ {
        Some("zh-CN"@)
    } else if clean == "latin"@ || clean == "lat"@ || clean == "la"@ {
        Some("la"@)
    } else if clean == "greek"@ || clean == "ell"@ || clean == "el"@ || clean == "el-gr"@ {
        Some("el-GR"@)
    } else if clean == "hebrew"@ || clean == "heb"@ || clean == "he"@ || clean == "he-il"@ {
        Some("he-IL"@)
    } else {
        None
    }
}

/// The tag that a known name or code (trimmed and lowercased) stands for.
pub open spec fn known_code(clean: Seq<char>) -> Option<Seq<char>> {
    match northern_code(clean) {
        Some(c) => Some(c),
        None => match european_code(clean) {
            Some(c) => Some(c),
            None => eastern_code(clean),
        },
    }
}

/// The BCP-47 tag for a loosely written language: a known name or code (compared after
/// trimming and lowercasing) gives its tag, an empty one gives `en-US`, and anything else
/// is passed through trimmed.
pub open spec fn bcp47_of(input: Seq<char>) -> Seq<char> {
    let clean = unicode_lowercase(trim(input));
    match known_code(clean) {
        Some(code) => code,
        None => if clean.len() == 0 {
            "en-US"@
        } else {
            trim(input)
        },
    }
}

/// A custom tag that normalising passes through (trimmed) is normalised to itself.
pub proof fn lemma_bcp47_passthrough_fixed(input: Seq<char>)
    requires
        known_code(unicode_lowercase(trim(input))) is None,
        unicode_lowercase(trim(input)).len() > 0,
    ensures
        bcp47_of(bcp47_of(input)) == bcp47_of(input),
{
    lemma_trim_idempotent(input);
}

/// The characters of the language names, codes and tags that normalising knows.
proof fn lemma_language_literal_chars()
    ensures
        "chinese"@.len() == 7 && "chinese"@[0] == 'c' && "chinese"@[1] == 'h' && "chinese"@[2] == 'i' && "chinese"@[3] == 'n' && "chinese"@[4] == 'e' && "chinese"@[5] == 's' && "chinese"@[6] == 'e',
        "de"@.len() == 2 && "de"@[0] == 'd' && "de"@[1] == 'e',
        "de-DE"@.len() == 5 && "de-DE"@[0] == 'd' && "de-DE"@[1] == 'e' && "de-DE"@[2] == '-' && "de-DE"@[3] == 'D' && "de-DE"@[4] == 'E',
        "de-de"@.len() == 5 && "de-de"@[0] == 'd' && "de-de"@[1] == 'e' && "de-de"@[2] == '-' && "de-de"@[3] == 'd' && "de-de"@[4] == 'e',
        "deu"@.len() == 3 && "deu"@[0] == 'd' && "deu"@[1] == 'e' && "deu"@[2] == 'u',
        "dutch"@.len() == 5 && "dutch"@[0] == 'd' && "dutch"@[1] == 'u' && "dutch"@[2] == 't' && "dutch"@[3] == 'c' && "dutch"@[4] == 'h',
        "el"@.len() == 2 && "el"@[0] == 'e' && "el"@[1] == 'l',
        "el-GR"@.len() == 5 && "el-GR"@[0] == 'e' && "el-GR"@[1] == 'l' && "el-GR"@[2] == '-' && "el-GR"@[3] == 'G' && "el-GR"@[4] == 'R',
        "el-gr"@.len() == 5 && "el-gr"@[0] == 'e' && "el-gr"@[1] == 'l' && "el-gr"@[2] == '-' && "el-gr"@[3] == 'g' && "el-gr"@[4] == 'r',
        "ell"@.len() == 3 && "ell"@[0] == 'e' && "ell"@[1] == 'l' && "ell"@[2] == 'l',
        "en"@.len() == 2 && "en"@[0] == 'e' && "en"@[1] == 'n',
        "en-GB"@.len() == 5 && "en-GB"@[0] == 'e' && "en-GB"@[1] == 'n' && "en-GB"@[2] == '-' && "en-GB"@[3] == 'G' && "en-GB"@[4] == 'B',
        "en-US"@.len() == 5 && "en-US"@[0] == 'e' && "en-US"@[1] == 'n' && "en-US"@[2] == '-' && "en-US"@[3] == 'U' && "en-US"@[4] == 'S',
        "en-gb"@.len() == 5 && "en-gb"@[0] == 'e' && "en-gb"@[1] == 'n' && "en-gb"@[2] == '-' && "en-gb"@[3] == 'g' && "en-gb"@[4] == 'b',
        "en-us"@.len() == 5 && "en-us"@[0] == 'e' && "en-us"@[1] == 'n' && "en-us"@[2] == '-' && "en-us"@[3] == 'u' && "en-us"@[4] == 's',
        "en_gb"@.len() == 5 && "en_gb"@[0] == 'e' && "en_gb"@[1] == 'n' && "en_gb"@[2] == '_' && "en_gb"@[3] == 'g' && "en_gb"@[4] == 'b',
        "en_us"@.len() == 5 && "en_us"@[0] == 'e' && "en_us"@[1] == 'n' && "en_us"@[2] == '_' && "en_us"@[3] == 'u' && "en_us"@[4] == 's',
        "eng"@.len() == 3 && "eng"@[0] == 'e' && "eng"@[1] == 'n' && "eng"@[2] == 'g',
        "english"@.len() == 7 && "english"@[0] == 'e' && "english"@[1] == 'n' && "english"@[2] == 'g' && "english"@[3] == 'l' && "english"@[4] == 'i' && "english"@[5] == 's' && "english"@[6] == 'h',
        "english (uk)"@.len() == 12 && "english (uk)"@[0] == 'e' && "english (uk)"@[1] == 'n' && "english (uk)"@[2] == 'g' && "english (uk)"@[3] == 'l' && "english (uk)"@[4] == 'i' && "english (uk)"@[5] == 's' && "english (uk)"@[6] == 'h' && "english (uk)"@[7] == ' ' && "english (uk)"@[8] == '(' && "english (uk)"@[9] == 'u' && "english (uk)"@[10] == 'k' && "english (uk)"@[11] == ')',
        "es"@.len() == 2 && "es"@[0] == 'e' && "es"@[1] == 's',
        "es-ES"@.len() == 5 && "es-ES"@[0] == 'e' && "es-ES"@[1] == 's' && "es-ES"@[2] == '-' && "es-ES"@[3] == 'E' && "es-ES"@[4] == 'S',
        "es-es"@.len() == 5 && "es-es"@[0] == 'e' && "es-es"@[1] == 's' && "es-es"@[2] == '-' && "es-es"@[3] == 'e' && "es-es"@[4] == 's',
        "est"@.len() == 3 && "est"@[0] == 'e' && "est"@[1] == 's' && "est"@[2] == 't',
        "estonian"@.len() == 8 && "estonian"@[0] == 'e' && "estonian"@[1] == 's' && "estonian"@[2] == 't' && "estonian"@[3] == 'o' && "estonian"@[4] == 'n' && "estonian"@[5] == 'i' && "estonian"@[6] == 'a' && "estonian"@[7] == 'n',
        "et"@.len() == 2 && "et"@[0] == 'e' && "et"@[1] == 't',
        "et-EE"@.len() == 5 && "et-EE"@[0] == 'e' && "et-EE"@[1] == 't' && "et-EE"@[2] == '-' && "et-EE"@[3] == 'E' && "et-EE"@[4] == 'E',
        "et-ee"@.len() == 5 && "et-ee"@[0] == 'e' && "et-ee"@[1] == 't' && "et-ee"@[2] == '-' && "et-ee"@[3] == 'e' && "et-ee"@[4] == 'e',
        "fi"@.len() == 2 && "fi"@[0] == 'f' && "fi"@[1] == 'i',
        "fi-FI"@.len() == 5 && "fi-FI"@[0] == 'f' && "fi-FI"@[1] == 'i' && "fi-FI"@[2] == '-' && "fi-FI"@[3] == 'F' && "fi-FI"@[4] == 'I',
        "fi-fi"@.len() == 5 && "fi-fi"@[0] == 'f' && "fi-fi"@[1] == 'i' && "fi-fi"@[2] == '-' && "fi-fi"@[3] == 'f' && "fi-fi"@[4] == 'i',
        "fin"@.len() == 3 && "fin"@[0] == 'f' && "fin"@[1] == 'i' && "fin"@[2] == 'n',
        "finnish"@.len() == 7 && "finnish"@[0] == 'f' && "finnish"@[1] == 'i' && "finnish"@[2] == 'n' && "finnish"@[3] == 'n' && "finnish"@[4] == 'i' && "finnish"@[5] == 's' && "finnish"@[6] == 'h',
        "fr"@.len() == 2 && "fr"@[0] == 'f' && "fr"@[1] == 'r',
        "fr-FR"@.len() == 5 && "fr-FR"@[0] == 'f' && "fr-FR"@[1] == 'r' && "fr-FR"@[2] == '-' && "fr-FR"@[3] == 'F' && "fr-FR"@[4] == 'R',
        "fr-fr"@.len() == 5 && "fr-fr"@[0] == 'f' && "fr-fr"@[1] == 'r' && "fr-fr"@[2] == '-' && "fr-fr"@[3] == 'f' && "fr-fr"@[4] == 'r',
        "fra"@.len() == 3 && "fra"@[0] == 'f' && "fra"@[1] == 'r' && "fra"@[2] == 'a',
        "french"@.len() == 6 && "french"@[0] == 'f' && "french"@[1] == 'r' && "french"@[2] == 'e' && "french"@[3] == 'n' && "french"@[4] == 'c' && "french"@[5] == 'h',
        "german"@.len() == 6 && "german"@[0] == 'g' && "german"@[1] == 'e' && "german"@[2] == 'r' && "german"@[3] == 'm' && "german"@[4] == 'a' && "german"@[5] == 'n',
        "greek"@.len() == 5 && "greek"@[0] == 'g' && "greek"@[1] == 'r' && "greek"@[2] == 'e' && "greek"@[3] == 'e' && "greek"@[4] == 'k',
        "he"@.len() == 2 && "he"@[0] == 'h' && "he"@[1] == 'e',
        "he-IL"@.len() == 5 && "he-IL"@[0] == 'h' && "he-IL"@[1] == 'e' && "he-IL"@[2] == '-' && "he-IL"@[3] == 'I' && "he-IL"@[4] == 'L',
        "he-il"@.len() == 5 && "he-il"@[0] == 'h' && "he-il"@[1] == 'e' && "he-il"@[2] == '-' && "he-il"@[3] == 'i' && "he-il"@[4] == 'l',
        "heb"@.len() == 3 && "heb"@[0] == 'h' && "heb"@[1] == 'e' && "heb"@[2] == 'b',
        "hebrew"@.len() == 6 && "hebrew"@[0] == 'h' && "hebrew"@[1] == 'e' && "hebrew"@[2] == 'b' && "hebrew"@[3] == 'r' && "hebrew"@[4] == 'e' && "hebrew"@[5] == 'w',
        "icelandic"@.len() == 9 && "icelandic"@[0] == 'i' && "icelandic"@[1] == 'c' && "icelandic"@[2] == 'e' && "icelandic"@[3] == 'l' && "icelandic"@[4] == 'a' && "icelandic"@[5] == 'n' && "icelandic"@[6] == 'd' && "icelandic"@[7] == 'i' && "icelandic"@[8] == 'c',
        "is"@.len() == 2 && "is"@[0] == 'i' && "is"@[1] == 's',
        "is-IS"@.len() == 5 && "is-IS"@[0] == 'i' && "is-IS"@[1] == 's' && "is-IS"@[2] == '-' && "is-IS"@[3] == 'I' && "is-IS"@[4] == 'S',
        "is-is"@.len() == 5 && "is-is"@[0] == 'i' && "is-is"@[1] == 's' && "is-is"@[2] == '-' && "is-is"@[3] == 'i' && "is-is"@[4] == 's',
        "isl"@.len() == 3 && "isl"@[0] == 'i' && "isl"@[1] == 's' && "isl"@[2] == 'l',
        "it"@.len() == 2 && "it"@[0] == 'i' && "it"@[1] == 't',
        "it-IT"@.len() == 5 && "it-IT"@[0] == 'i' && "it-IT"@[1] == 't' && "it-IT"@[2] == '-' && "it-IT"@[3] == 'I' && "it-IT"@[4] == 'T',
        "it-it"@.len() == 5 && "it-it"@[0] == 'i' && "it-it"@[1] == 't' && "it-it"@[2] == '-' && "it-it"@[3] == 'i' && "it-it"@[4] == 't',
        "ita"@.len() == 3 && "ita"@[0] == 'i' && "ita"@[1] == 't' && "ita"@[2] == 'a',
        "italian"@.len() == 7 && "italian"@[0] == 'i' && "italian"@[1] == 't' && "italian"@[2] == 'a' && "italian"@[3] == 'l' && "italian"@[4] == 'i' && "italian"@[5] == 'a' && "italian"@[6] == 'n',
        "ja"@.len() == 2 && "ja"@[0] == 'j' && "ja"@[1] == 'a',
        "ja-JP"@.len() == 5 && "ja-JP"@[0] == 'j' && "ja-JP"@[1] == 'a' && "ja-JP"@[2] == '-' && "ja-JP"@[3] == 'J' && "ja-JP"@[4] == 'P',
        "ja-jp"@.len() == 5 && "ja-jp"@[0] == 'j' && "ja-jp"@[1] == 'a' && "ja-jp"@[2] == '-' && "ja-jp"@[3] == 'j' && "ja-jp"@[4] == 'p',
        "japanese"@.len() == 8 && "japanese"@[0] == 'j' && "japanese"@[1] == 'a' && "japanese"@[2] == 'p' && "japanese"@[3] == 'a' && "japanese"@[4] == 'n' && "japanese"@[5] == 'e' && "japanese"@[6] == 's' && "japanese"@[7] == 'e',
        "jpn"@.len() == 3 && "jpn"@[0] == 'j' && "jpn"@[1] == 'p' && "jpn"@[2] == 'n',
        "ko"@.len() == 2 && "ko"@[0] == 'k' && "ko"@[1] == 'o',
        "ko-KR"@.len() == 5 && "ko-KR"@[0] == 'k' && "ko-KR"@[1] == 'o' && "ko-KR"@[2] == '-' && "ko-KR"@[3] == 'K' && "ko-KR"@[4] == 'R',
        "ko-kr"@.len() == 5 && "ko-kr"@[0] == 'k' && "ko-kr"@[1] == 'o' && "ko-kr"@[2] == '-' && "ko-kr"@[3] == 'k' && "ko-kr"@[4] == 'r',
        "kor"@.len() == 3 && "kor"@[0] == 'k' && "kor"@[1] == 'o' && "kor"@[2] == 'r',
        "korean"@.len() == 6 && "korean"@[0] == 'k' && "korean"@[1] == 'o' && "korean"@[2] == 'r' && "korean"@[3] == 'e' && "korean"@[4] == 'a' && "korean"@[5] == 'n',
        "la"@.len() == 2 && "la"@[0] == 'l' && "la"@[1] == 'a',
        "lat"@.len() == 3 && "lat"@[0] == 'l' && "lat"@[1] == 'a' && "lat"@[2] == 't',
        "latin"@.len() == 5 && "latin"@[0] == 'l' && "latin"@[1] == 'a' && "latin"@[2] == 't' && "latin"@[3] == 'i' && "latin"@[4] == 'n',
        "latvian"@.len() == 7 && "latvian"@[0] == 'l' && "latvian"@[1] == 'a' && "latvian"@[2] == 't' && "latvian"@[3] == 'v' && "latvian"@[4] == 'i' && "latvian"@[5] == 'a' && "latvian"@[6] == 'n',
        "lav"@.len() == 3 && "lav"@[0] == 'l' && "lav"@[1] == 'a' && "lav"@[2] == 'v',
        "lit"@.len() == 3 && "lit"@[0] == 'l' && "lit"@[1] == 'i' && "lit"@[2] == 't',
        "lithuanian"@.len() == 10 && "lithuanian"@[0] == 'l' && "lithuanian"@[1] == 'i' && "lithuanian"@[2] == 't' && "lithuanian"@[3] == 'h' && "lithuanian"@[4] == 'u' && "lithuanian"@[5] == 'a' && "lithuanian"@[6] == 'n' && "lithuanian"@[7] == 'i' && "lithuanian"@[8] == 'a' && "lithuanian"@[9] == 'n',
        "lt"@.len() == 2 && "lt"@[0] == 'l' && "lt"@[1] == 't',
        "lt-LT"@.len() == 5 && "lt-LT"@[0] == 'l' && "lt-LT"@[1] == 't' && "lt-LT"@[2] == '-' && "lt-LT"@[3] == 'L' && "lt-LT"@[4] == 'T',
        "lt-lt"@.len() == 5 && "lt-lt"@[0] == 'l' && "lt-lt"@[1] == 't' && "lt-lt"@[2] == '-' && "lt-lt"@[3] == 'l' && "lt-lt"@[4] == 't',
        "lv"@.len() == 2 && "lv"@[0] == 'l' && "lv"@[1] == 'v',
        "lv-LV"@.len() == 5 && "lv-LV"@[0] == 'l' && "lv-LV"@[1] == 'v' && "lv-LV"@[2] == '-' && "lv-LV"@[3] == 'L' && "lv-LV"@[4] == 'V',
        "lv-lv"@.len() == 5 && "lv-lv"@[0] == 'l' && "lv-lv"@[1] == 'v' && "lv-lv"@[2] == '-' && "lv-lv"@[3] == 'l' && "lv-lv"@[4] == 'v',
        "mandarin"@.len() == 8 && "mandarin"@[0] == 'm' && "mandarin"@[1] == 'a' && "mandarin"@[2] == 'n' && "mandarin"@[3] == 'd' && "mandarin"@[4] == 'a' && "mandarin"@[5] == 'r' && "mandarin"@[6] == 'i' && "mandarin"@[7] == 'n',
        "nl"@.len() == 2 && "nl"@[0] == 'n' && "nl"@[1] == 'l',
        "nl-NL"@.len() == 5 && "nl-NL"@[0] == 'n' && "nl-NL"@[1] == 'l' && "nl-NL"@[2] == '-' && "nl-NL"@[3] == 'N' && "nl-NL"@[4] == 'L',
        "nl-nl"@.len() == 5 && "nl-nl"@[0] == 'n' && "nl-nl"@[1] == 'l' && "nl-nl"@[2] == '-' && "nl-nl"@[3] == 'n' && "nl-nl"@[4] == 'l',
        "nld"@.len() == 3 && "nld"@[0] == 'n' && "nld"@[1] == 'l' && "nld"@[2] == 'd',
        "pl"@.len() == 2 && "pl"@[0] == 'p' && "pl"@[1] == 'l',
        "pl-PL"@.len() == 5 && "pl-PL"@[0] == 'p' && "pl-PL"@[1] == 'l' && "pl-PL"@[2] == '-' && "pl-PL"@[3] == 'P' && "pl-PL"@[4] == 'L',
        "pl-pl"@.len() == 5 && "pl-pl"@[0] == 'p' && "pl-pl"@[1] == 'l' && "pl-pl"@[2] == '-' && "pl-pl"@[3] == 'p' && "pl-pl"@[4] == 'l',
        "pol"@.len() == 3 && "pol"@[0] == 'p' && "pol"@[1] == 'o' && "pol"@[2] == 'l',
        "polish"@.len() == 6 && "polish"@[0] == 'p' && "polish"@[1] == 'o' && "polish"@[2] == 'l' && "polish"@[3] == 'i' && "polish"@[4] == 's' && "polish"@[5] == 'h',
        "por"@.len() == 3 && "por"@[0] == 'p' && "por"@[1] == 'o' && "por"@[2] == 'r',
        "portuguese"@.len() == 10 && "portuguese"@[0] == 'p' && "portuguese"@[1] == 'o' && "portuguese"@[2] == 'r' && "portuguese"@[3] == 't' && "portuguese"@[4] == 'u' && "portuguese"@[5] == 'g' && "portuguese"@[6] == 'u' && "portuguese"@[7] == 'e' && "portuguese"@[8] == 's' && "portuguese"@[9] == 'e',
        "pt"@.len() == 2 && "pt"@[0] == 'p' && "pt"@[1] == 't',
        "pt-PT"@.len() == 5 && "pt-PT"@[0] == 'p' && "pt-PT"@[1] == 't' && "pt-PT"@[2] == '-' && "pt-PT"@[3] == 'P' && "pt-PT"@[4] == 'T',
        "pt-br"@.len() == 5 && "pt-br"@[0] == 'p' && "pt-br"@[1] == 't' && "pt-br"@[2] == '-' && "pt-br"@[3] == 'b' && "pt-br"@[4] == 'r',
        "pt-pt"@.len() == 5 && "pt-pt"@[0] == 'p' && "pt-pt"@[1] == 't' && "pt-pt"@[2] == '-' && "pt-pt"@[3] == 'p' && "pt-pt"@[4] == 't',
        "ru"@.len() == 2 && "ru"@[0] == 'r' && "ru"@[1] == 'u',
        "ru-RU"@.len() == 5 && "ru-RU"@[0] == 'r' && "ru-RU"@[1] == 'u' && "ru-RU"@[2] == '-' && "ru-RU"@[3] == 'R' && "ru-RU"@[4] == 'U',
        "ru-ru"@.len() == 5 && "ru-ru"@[0] == 'r' && "ru-ru"@[1] == 'u' && "ru-ru"@[2] == '-' && "ru-ru"@[3] == 'r' && "ru-ru"@[4] == 'u',
        "rus"@.len() == 3 && "rus"@[0] == 'r' && "rus"@[1] == 'u' && "rus"@[2] == 's',
        "russian"@.len() == 7 && "russian"@[0] == 'r' && "russian"@[1] == 'u' && "russian"@[2] == 's' && "russian"@[3] == 's' && "russian"@[4] == 'i' && "russian"@[5] == 'a' && "russian"@[6] == 'n',
        "spa"@.len() == 3 && "spa"@[0] == 's' && "spa"@[1] == 'p' && "spa"@[2] == 'a',
        "spanish"@.len() == 7 && "spanish"@[0] == 's' && "spanish"@[1] == 'p' && "spanish"@[2] == 'a' && "spanish"@[3] == 'n' && "spanish"@[4] == 'i' && "spanish"@[5] == 's' && "spanish"@[6] == 'h',
        "sv"@.len() == 2 && "sv"@[0] == 's' && "sv"@[1] == 'v',
        "sv-SE"@.len() == 5 && "sv-SE"@[0] == 's' && "sv-SE"@[1] == 'v' && "sv-SE"@[2] == '-' && "sv-SE"@[3] == 'S' && "sv-SE"@[4] == 'E',
        "sv-se"@.len() == 5 && "sv-se"@[0] == 's' && "sv-se"@[1] == 'v' && "sv-se"@[2] == '-' && "sv-se"@[3] == 's' && "sv-se"@[4] == 'e',
        "swe"@.len() == 3 && "swe"@[0] == 's' && "swe"@[1] == 'w' && "swe"@[2] == 'e',
        "swedish"@.len() == 7 && "swedish"@[0] == 's' && "swedish"@[1] == 'w' && "swedish"@[2] == 'e' && "swedish"@[3] == 'd' && "swedish"@[4] == 'i' && "swedish"@[5] == 's' && "swedish"@[6] == 'h',
        "uk"@.len() == 2 && "uk"@[0] == 'u' && "uk"@[1] == 'k',
        "uk-UA"@.len() == 5 && "uk-UA"@[0] == 'u' && "uk-UA"@[1] == 'k' && "uk-UA"@[2] == '-' && "uk-UA"@[3] == 'U' && "uk-UA"@[4] == 'A',
        "uk-ua"@.len() == 5 && "uk-ua"@[0] == 'u' && "uk-ua"@[1] == 'k' && "uk-ua"@[2] == '-' && "uk-ua"@[3] == 'u' && "uk-ua"@[4] == 'a',
        "ukr"@.len() == 3 && "ukr"@[0] == 'u' && "ukr"@[1] == 'k' && "ukr"@[2] == 'r',
        "ukrainian"@.len() == 9 && "ukrainian"@[0] == 'u' && "ukrainian"@[1] == 'k' && "ukrainian"@[2] == 'r' && "ukrainian"@[3] == 'a' && "ukrainian"@[4] == 'i' && "ukrainian"@[5] == 'n' && "ukrainian"@[6] == 'i' && "ukrainian"@[7] == 'a' && "ukrainian"@[8] == 'n',
        "zh"@.len() == 2 && "zh"@[0] == 'z' && "zh"@[1] == 'h',
        "zh-CN"@.len() == 5 && "zh-CN"@[0] == 'z' && "zh-CN"@[1] == 'h' && "zh-CN"@[2] == '-' && "zh-CN"@[3] == 'C' && "zh-CN"@[4] == 'N',
        "zh-cn"@.len() == 5 && "zh-cn"@[0] == 'z' && "zh-cn"@[1] == 'h' && "zh-cn"@[2] == '-' && "zh-cn"@[3] == 'c' && "zh-cn"@[4] == 'n',
        "zho"@.len() == 3 && "zho"@[0] == 'z' && "zho"@[1] == 'h' && "zho"@[2] == 'o',
{
    reveal_strlit("chinese");
    reveal_strlit("de");
    reveal_strlit("de-DE");
    reveal_strlit("de-de");
    reveal_strlit("deu");
    reveal_strlit("dutch");
    reveal_strlit("el");
    reveal_strlit("el-GR");
    reveal_strlit("el-gr");
    reveal_strlit("ell");
    reveal_strlit("en");
    reveal_strlit("en-GB");
    reveal_strlit("en-US");
    reveal_strlit("en-gb");
    reveal_strlit("en-us");
    reveal_strlit("en_gb");
    reveal_strlit("en_us");
    reveal_strlit("eng");
    reveal_strlit("english");
    reveal_strlit("english (uk)");
    reveal_strlit("es");
    reveal_strlit("es-ES");
    reveal_strlit("es-es");
    reveal_strlit("est");
    reveal_strlit("estonian");
    reveal_strlit("et");
    reveal_strlit("et-EE");
    reveal_strlit("et-ee");
    reveal_strlit("fi");
    reveal_strlit("fi-FI");
    reveal_strlit("fi-fi");
    reveal_strlit("fin");
    reveal_strlit("finnish");
    reveal_strlit("fr");
    reveal_strlit("fr-FR");
    reveal_strlit("fr-fr");
    reveal_strlit("fra");
    reveal_strlit("french");
    reveal_strlit("german");
    reveal_strlit("greek");
    reveal_strlit("he");
    reveal_strlit("he-IL");
    reveal_strlit("he-il");
    reveal_strlit("heb");
    reveal_strlit("hebrew");
    reveal_strlit("icelandic");
    reveal_strlit("is");
    reveal_strlit("is-IS");
    reveal_strlit("is-is");
    reveal_strlit("isl");
    reveal_strlit("it");
    reveal_strlit("it-IT");
    reveal_strlit("it-it");
    reveal_strlit("ita");
    reveal_strlit("italian");
    reveal_strlit("ja");
    reveal_strlit("ja-JP");
    reveal_strlit("ja-jp");
    reveal_strlit("japanese");
    reveal_strlit("jpn");
    reveal_strlit("ko");
    reveal_strlit("ko-KR");
    reveal_strlit("ko-kr");
    reveal_strlit("kor");
    reveal_strlit("korean");
    reveal_strlit("la");
    reveal_strlit("lat");
    reveal_strlit("latin");
    reveal_strlit("latvian");
    reveal_strlit("lav");
    reveal_strlit("lit");
    reveal_strlit("lithuanian");
    reveal_strlit("lt");
    reveal_strlit("lt-LT");
    reveal_strlit("lt-lt");
    reveal_strlit("lv");
    reveal_strlit("lv-LV");
    reveal_strlit("lv-lv");
    reveal_strlit("mandarin");
    reveal_strlit("nl");
    reveal_strlit("nl-NL");
    reveal_strlit("nl-nl");
    reveal_strlit("nld");
    reveal_strlit("pl");
    reveal_strlit("pl-PL");
    reveal_strlit("pl-pl");
    reveal_strlit("pol");
    reveal_strlit("polish");
    reveal_strlit("por");
    reveal_strlit("portuguese");
    reveal_strlit("pt");
    reveal_strlit("pt-PT");
    reveal_strlit("pt-br");
    reveal_strlit("pt-pt");
    reveal_strlit("ru");
    reveal_strlit("ru-RU");
    reveal_strlit("ru-ru");
    reveal_strlit("rus");
    reveal_strlit("russian");
    reveal_strlit("spa");
    reveal_strlit("spanish");
    reveal_strlit("sv");
    reveal_strlit("sv-SE");
    reveal_strlit("sv-se");
    reveal_strlit("swe");
    reveal_strlit("swedish");
    reveal_strlit("uk");
    reveal_strlit("uk-UA");
    reveal_strlit("uk-ua");
    reveal_strlit("ukr");
    reveal_strlit("ukrainian");
    reveal_strlit("zh");
    reveal_strlit("zh-CN");
    reveal_strlit("zh-cn");
    reveal_strlit("zho");
}

/// Each known tag made ASCII-lowercase is the lowercase code that names it.
proof fn lemma_known_tags_lowercase()
    ensures
        ascii_lower("de-DE"@) == "de-de"@,
        ascii_lower("el-GR"@) == "el-gr"@,
        ascii_lower("en-GB"@) == "en-gb"@,
        ascii_lower("en-US"@) == "en-us"@,
        ascii_lower("es-ES"@) == "es-es"@,
        ascii_lower("et-EE"@) == "et-ee"@,
        ascii_lower("fi-FI"@) == "fi-fi"@,
        ascii_lower("fr-FR"@) == "fr-fr"@,
        ascii_lower("he-IL"@) == "he-il"@,
        ascii_lower("is-IS"@) == "is-is"@,
        ascii_lower("it-IT"@) == "it-it"@,
        ascii_lower("ja-JP"@) == "ja-jp"@,
        ascii_lower("ko-KR"@) == "ko-kr"@,
        ascii_lower("la"@) == "la"@,
        ascii_lower("lt-LT"@) == "lt-lt"@,
        ascii_lower("lv-LV"@) == "lv-lv"@,
        ascii_lower("nl-NL"@) == "nl-nl"@,
        ascii_lower("pl-PL"@) == "pl-pl"@,
        ascii_lower("pt-PT"@) == "pt-pt"@,
        ascii_lower("ru-RU"@) == "ru-ru"@,
        ascii_lower("sv-SE"@) == "sv-se"@,
        ascii_lower("uk-UA"@) == "uk-ua"@,
        ascii_lower("zh-CN"@) == "zh-cn"@,
{
    lemma_language_literal_chars();
    assert(ascii_lower("de-DE"@) =~= "de-de"@);
    assert(ascii_lower("el-GR"@) =~= "el-gr"@);
    assert(ascii_lower("en-GB"@) =~= "en-gb"@);
    assert(ascii_lower("en-US"@) =~= "en-us"@);
    assert(ascii_lower("es-ES"@) =~= "es-es"@);
    assert(ascii_lower("et-EE"@) =~= "et-ee"@);
    assert(ascii_lower("fi-FI"@) =~= "fi-fi"@);
    assert(ascii_lower("fr-FR"@) =~= "fr-fr"@);
    assert(ascii_lower("he-IL"@) =~= "he-il"@);
    assert(ascii_lower("is-IS"@) =~= "is-is"@);
    assert(ascii_lower("it-IT"@) =~= "it-it"@);
    assert(ascii_lower("ja-JP"@) =~= "ja-jp"@);
    assert(ascii_lower("ko-KR"@) =~= "ko-kr"@);
    assert(ascii_lower("la"@) =~= "la"@);
    assert(ascii_lower("lt-LT"@) =~= "lt-lt"@);
    assert(ascii_lower("lv-LV"@) =~= "lv-lv"@);
    assert(ascii_lower("nl-NL"@) =~= "nl-nl"@);
    assert(ascii_lower("pl-PL"@) =~= "pl-pl"@);
    assert(ascii_lower("pt-PT"@) =~= "pt-pt"@);
    assert(ascii_lower("ru-RU"@) =~= "ru-ru"@);
    assert(ascii_lower("sv-SE"@) =~= "sv-se"@);
    assert(ascii_lower("uk-UA"@) =~= "uk-ua"@);
    assert(ascii_lower("zh-CN"@) =~= "zh-cn"@);
}

/// Whether a name begins with a two-letter language subtag: it is two letters long, or its
/// third character is `-` or `_`.
pub open spec fn starts_with_language_subtag(clean: Seq<char>) -> bool {
    clean.len() == 2 || (clean.len() > 2 && (clean[2] == '-' || clean[2] == '_'))
}

/// A known tag is a fixed point: the tag that a known name or code gives, lowercased, is a
/// known code that gives that same tag back, so normalising a tag that normalising gave
/// keeps it.
pub proof fn lemma_known_tags_are_fixed(clean: Seq<char>)
    ensures
        known_code(clean) matches Some(t) ==> known_code(ascii_lower(t)) == Some(t),
{
    lemma_language_literal_chars();
    lemma_known_tags_lowercase();
}

/// A code that begins with a two-letter language subtag (such as `de` or `pt-br`) gives a
/// tag of that language: the tag begins with the same two letters.
pub proof fn lemma_known_code_keeps_language(clean: Seq<char>)
    ensures
        starts_with_language_subtag(clean) ==> (known_code(clean) matches Some(t) ==> (t.len()
            >= 2 && t.take(2) == clean.take(2))),
{
    lemma_language_literal_chars();
}

/// The language names and three-letter codes that normalising knows, each beside the
/// two-letter code of the same language (`en-gb` for `english (uk)`).
pub open spec fn language_name_codes() -> Seq<(Seq<char>, Seq<char>)> {
    seq![
        ("english"@, "en"@),
        ("eng"@, "en"@),
        ("english (uk)"@, "en-gb"@),
        ("estonian"@, "et"@),
        ("est"@, "et"@),
        ("latvian"@, "lv"@),
        ("lav"@, "lv"@),
        ("lithuanian"@, "lt"@),
        ("lit"@, "lt"@),
        ("finnish"@, "fi"@),
        ("fin"@, "fi"@),
        ("swedish"@, "sv"@),
        ("swe"@, "sv"@),
        ("icelandic"@, "is"@),
        ("isl"@, "is"@),
        ("spanish"@, "es"@),
        ("spa"@, "es"@),
        ("french"@, "fr"@),
        ("fra"@, "fr"@),
        ("german"@, "de"@),
        ("deu"@, "de"@),
        ("italian"@, "it"@),
        ("ita"@, "it"@),
        ("dutch"@, "nl"@),
        ("nld"@, "nl"@),
        ("portuguese"@, "pt"@),
        ("por"@, "pt"@),
        ("russian"@, "ru"@),
        ("rus"@, "ru"@),
        ("polish"@, "pl"@),
        ("pol"@, "pl"@),
        ("ukrainian"@, "uk"@),
        ("ukr"@, "uk"@),
        ("japanese"@, "ja"@),
        ("jpn"@, "ja"@),
        ("korean"@, "ko"@),
        ("kor"@, "ko"@),
        ("chinese"@, "zh"@),
        ("mandarin"@, "zh"@),
        ("zho"@, "zh"@),
        ("latin"@, "la"@),
        ("lat"@, "la"@),
        ("greek"@, "el"@),
        ("ell"@, "el"@),
        ("hebrew"@, "he"@),
        ("heb"@, "he"@),
    ]
}

/// A language's name or three-letter code gives the same tag as its two-letter code.
pub proof fn lemma_names_agree_with_codes(i: int)
    requires
        0 <= i < language_name_codes().len(),
    ensures
        known_code(language_name_codes()[i].0) is Some,
        known_code(language_name_codes()[i].0) == known_code(language_name_codes()[i].1),
{
    lemma_language_literal_chars();
}

fn any_of4(s: &str, a: &str, b: &str, c: &str, d: &str) -> (r: bool)
    ensures
        r == (s@ == a@ || s@ == b@ || s@ == c@ || s@ == d@),
{
    str_eq(s, a) || str_eq(s, b) || str_eq(s, c) || str_eq(s, d)
}

fn northern_code_of(clean: &str) -> (r: Option<&'static str>)
    ensures
        match r {
            Some(c) => northern_code(clean@) == Some(c@),
            None => northern_code(clean@) is None,
        },
{
    if any_of4(clean, "english", "eng", "en", "en-us") || str_eq(clean, "en_us") {
        Some("en-US")
    } else if str_eq(clean, "english (uk)") || str_eq(clean, "en-gb") || str_eq(clean, "en_gb") {
        Some("en-GB")
    } else if any_of4(clean, "estonian", "est", "et", "et-ee") {
        Some("et-EE")
    } else if any_of4(clean, "latvian", "lav", "lv", "lv-lv") {
        Some("lv-LV")
    } else if any_of4(clean, "lithuanian", "lit", "lt", "lt-lt") {
        Some("lt-LT")
    } else if any_of4(clean, "finnish", "fin", "fi", "fi-fi") {
        Some("fi-FI")
    } else if any_of4(clean, "swedish", "swe", "sv", "sv-se") {
        Some("sv-SE")
    } else if any_of4(clean, "icelandic", "isl", "is", "is-is") {
        Some("is-IS")
    } else {
        None
    }
}

fn european_code_of(clean: &str) -> (r: Option<&'static str>)
    ensures
        match r {
            Some(c) => european_code(clean@) == Some(c@),
            None => european_code(clean@) is None,
        },
{
    if any_of4(clean, "spanish", "spa", "es", "es-es") {
        Some("es-ES")
    } else if any_of4(clean, "french", "fra", "fr", "fr-fr") {
        Some("fr-FR")
    } else if any_of4(clean, "german", "deu", "de", "de-de") {
        Some("de-DE")
    } else if any_of4(clean, "italian", "ita", "it", "it-it") {
        Some("it-IT")
    } else if any_of4(clean, "dutch", "nld", "nl", "nl-nl") {
        Some("nl-NL")
    } else if any_of4(clean, "portuguese", "por", "pt", "pt-br") || str_eq(clean, "pt-pt") {
        Some("pt-PT")
    } else if any_of4(clean, "russian", "rus", "ru", "ru-ru") {
        Some("ru-RU")
    } else if any_of4(clean, "polish", "pol", "pl", "pl-pl") {
        Some("pl-PL")
    } else if any_of4(clean, "ukrainian", "ukr", "uk", "uk-ua") {
        Some("uk-UA")
    } else {
        None
    }
}

fn eastern_code_of(clean: &str) -> (r: Option<&'static str>)
    ensures
        match r {
            Some(c) => eastern_code(clean@) == Some(c@),
            None => eastern_code(clean@) is None,
        },
{
    if any_of4(clean, "japanese", "jpn", "ja", "ja-jp") {
        Some("ja-JP")
    } else if any_of4(clean, "korean", "kor", "ko", "ko-kr") {
        Some("ko-KR")
    } else if any_of4(clean, "chinese", "mandarin", "zho", "zh") || str_eq(clean, "zh-cn") {
        Some("zh-CN")
    } else if str_eq(clean, "latin") || str_eq(clean, "lat") || str_eq(clean, "la") {
        Some("la")
    } else if any_of4(clean, "greek", "ell", "el", "el-gr") {
        Some("el-GR")
    } else if any_of4(clean, "hebrew", "heb", "he", "he-il") {
        Some("he-IL")
    } else {
        None
    }
}

fn known_code_of(clean: &str) -> (r: Option<&'static str>)
    ensures
        match r {
            Some(c) => known_code(clean@) == Some(c@),
            None => known_code(clean@) is None,
        },
{
    match northern_code_of(clean) {
        Some(c) => Some(c),
        None => match european_code_of(clean) {
            Some(c) => Some(c),
            None => eastern_code_of(clean),
        },
    }
}

/// Matches a loosely written language name or code to a BCP-47 tag: known names and codes
/// (in any case, with surrounding whitespace) give their tag, an empty input gives `en-US`,
/// and a custom tag is passed through, trimmed.
pub fn normalize_to_bcp47(input: &str) -> (r: String)
    ensures
        r@ == bcp47_of(input@),
{
    let trimmed = trim_str(input);
    let clean = to_lowercase(trimmed.as_str());
    match known_code_of(clean.as_str()) {
        Some(code) => String::from_str(code),
        None => {
            if clean.as_str().is_empty() {
                String::from_str("en-US")
            } else {
                trimmed
            }
        },
    }
}

} // verus!
