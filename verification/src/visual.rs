//! The visual editor: its bars and pickers, the edits its fields make to a card, and the
//! actions it collects during a frame and carries out after it.

use vstd::prelude::*;
use crate::audio::bcp47::{language_entry, supported_language_table, supported_languages, TtsLanguage};
use crate::edit::{blank, blank_card, cards_model, deck_model, has_current, with_cards};
use crate::models::{
    Card, CardKind, CardModel, Example, ExampleModel, LexicalInfo, LexicalInfoModel, MediaInfo,
    MediaInfoModel, Occlusion, OcclusionModel,
};
use crate::archive::{path_extension, std_path_extension};
use crate::studio::{MFlashStudioApp, Workspace};
use crate::text::{
    chars_of, contains_seq, decimal, decimal_string, join, lemma_join_push, lemma_trim_idempotent,
    str_contains, str_eq, string_from, to_lowercase, trim, trim_str, unicode_lowercase,
};

verus! {

/// The view toggles of the visual editor's quick options bar, borrowed from the studio.
pub struct QuickOptions<'a> {
    pub show_lang_codes: &'a mut bool,
    pub show_phonetic: &'a mut bool,
    pub show_part_of_speech: &'a mut bool,
    pub show_notes: &'a mut bool,
    pub show_tags: &'a mut bool,
}

/// The visual editor's top bar: where the card stands, the audio switches, and the flags
/// its buttons raise for the editor to act on after the frame.
pub struct TopBar<'a> {
    pub selected_index: usize,
    pub total_cards: usize,
    pub editor_mode: bool,
    pub enable_tts: &'a mut bool,
    pub enable_media_audio: &'a mut bool,
    pub go_back: &'a mut bool,
    pub trigger_speak: &'a mut bool,
    pub action_add_card: &'a mut bool,
    pub action_save: &'a mut bool,
}

/// `Card N of M` for the card at position `index` (from 0) of `total`.
pub open spec fn position_label(index: nat, total: nat) -> Seq<char> {
    "Card "@ + decimal(index + 1) + " of "@ + decimal(total)
}

impl<'a> TopBar<'a> {
    /// The bar's `Card N of M` label, counting from 1.
    pub fn position_text(&self) -> (r: String)
        requires
            self.selected_index < usize::MAX,
        ensures
            r@ == position_label(self.selected_index as nat, self.total_cards as nat),
    {
        let mut r = String::from_str("Card ");
        let n = decimal_string(self.selected_index + 1);
        r.append(n.as_str());
        r.append(" of ");
        let t = decimal_string(self.total_cards);
        r.append(t.as_str());
        r
    }
}

/// The language picker of a text field: the field's language, the deck's language shown
/// when it has none, and the search box text.
pub struct LanguagePicker<'a> {
    pub id_source: &'static str,
    pub current_lang: &'a mut Option<String>,
    pub fallback_lang: &'a str,
    pub search_query: &'a mut String,
}

/// What the picker's box shows: the field's language, or `Default: ` and the deck's
/// language when the field has none.
pub open spec fn picker_caption(current: Option<Seq<char>>, fallback: Seq<char>) -> Seq<char> {
    let lang = match current {
        Some(l) => l,
        None => Seq::<char>::empty(),
    };
    if lang.len() == 0 {
        "Default: "@ + fallback
    } else {
        lang
    }
}

/// Whether the picker lists the language with entry (name, tag) for the search text
/// `search` (already lowercased): its name or its tag, lowercased, contains the search text.
pub open spec fn picker_lists(entry: (Seq<char>, Seq<char>), search: Seq<char>) -> bool {
    contains_seq(unicode_lowercase(entry.0), search) || contains_seq(
        unicode_lowercase(entry.1),
        search,
    )
}

/// A field language as the picker stores it: trimmed, and none when blank.
pub open spec fn stored_language(chosen: Seq<char>) -> Option<Seq<char>> {
    if trim(chosen).len() == 0 {
        None
    } else {
        Some(trim(chosen))
    }
}

impl<'a> LanguagePicker<'a> {
    /// What the picker's box shows.
    pub fn caption(&self) -> (r: String)
        ensures
            r@ == picker_caption(old(self.current_lang).deep_view(), self.fallback_lang@),
    {
        let lang = match &*self.current_lang {
            Some(l) => l.clone(),
            None => String::new(),
        };
        if lang.as_str().is_empty() {
            let mut r = String::from_str("Default: ");
            r.append(self.fallback_lang);
            r
        } else {
            lang
        }
    }

    /// The languages the picker lists for its search text, in table order.
    pub fn listed_languages(&self) -> (r: Vec<TtsLanguage>)
        ensures
            r@.map_values(|l: TtsLanguage| language_entry(l)) == supported_language_table().filter(
                |e: (Seq<char>, Seq<char>)| picker_lists(e, unicode_lowercase(old(self.search_query)@)),
            ),
    {
        let all = supported_languages();
        let search = to_lowercase(self.search_query.as_str());
        let ghost table = supported_language_table();
        let ghost pred = |e: (Seq<char>, Seq<char>)| picker_lists(e, search@);
        let mut out: Vec<TtsLanguage> = Vec::new();
        let mut i: usize = 0;
        proof {
            assert(table.take(0) =~= Seq::<(Seq<char>, Seq<char>)>::empty());
            reveal(Seq::filter);
            assert(out@.map_values(|l: TtsLanguage| language_entry(l)) =~= table.take(0).filter(pred));
        }
        while i < all.len()
            invariant
                i <= all@.len(),
                all@.map_values(|l: TtsLanguage| language_entry(l)) == table,
                table == supported_language_table(),
                search@ == unicode_lowercase(old(self.search_query)@),
                pred == (|e: (Seq<char>, Seq<char>)| picker_lists(e, search@)),
                out@.map_values(|l: TtsLanguage| language_entry(l)) == table.take(i as int).filter(
                    pred,
                ),
            decreases all@.len() - i,
        {
            let lang = all[i];
            let name = to_lowercase(lang.display_name);
            let tag = to_lowercase(lang.bcp_47);
            let listed = str_contains(name.as_str(), search.as_str()) || str_contains(
                tag.as_str(),
                search.as_str(),
            );
            let ghost before = out@;
            proof {
                reveal(Seq::filter);
                assert(table.take(i + 1).drop_last() =~= table.take(i as int));
                assert(table[i as int] == language_entry(lang));
                assert(listed == pred(table[i as int]));
            }
            if listed {
                out.push(lang);
                proof {
                    assert(out@.map_values(|l: TtsLanguage| language_entry(l)) =~= before.map_values(
                        |l: TtsLanguage| language_entry(l),
                    ).push(language_entry(lang)));
                }
            }
            i = i + 1;
        }
        assert(table.take(all@.len() as int) =~= table);
        out
    }

    /// Whether the picker offers the search text itself as a custom language: it does when
    /// the search text is not empty.
    pub fn offers_custom(&self) -> (r: bool)
        ensures
            r == (unicode_lowercase(old(self.search_query)@).len() > 0),
    {
        let search = to_lowercase(self.search_query.as_str());
        !search.as_str().is_empty()
    }

    /// Stores the language chosen in the picker (a listed tag or the custom search text)
    /// into the field, trimmed and none when blank, and empties the search box. Answers that
    /// the field changed.
    pub fn commit(self, chosen: &str) -> (changed: bool)
        ensures
            changed,
            final(self.current_lang).deep_view() == stored_language(chosen@),
            final(self.search_query)@.len() == 0,
    {
        let t = trim_str(chosen);
        if t.as_str().is_empty() {
            *self.current_lang = None;
        } else {
            *self.current_lang = Some(t);
        }
        *self.search_query = String::new();
        true
    }
}

/// What the basic card editor asks for after a frame.
#[derive(Debug)]
pub struct BasicEditorActions {
    /// The card changed and the schema text must be updated.
    pub json_needs_sync: bool,
    /// The card changed and the engine workspace must be updated.
    pub core_needs_sync: bool,
    /// An example is to be added.
    pub action_add_sentence: bool,
    /// The example at this position is to be removed.
    pub action_remove_sentence: Option<usize>,
}

impl Default for BasicEditorActions {
    /// Nothing asked for.
    fn default() -> (r: Self)
        ensures
            !r.json_needs_sync,
            !r.core_needs_sync,
            !r.action_add_sentence,
            r.action_remove_sentence is None,
    {
        BasicEditorActions {
            json_needs_sync: false,
            core_needs_sync: false,
            action_add_sentence: false,
            action_remove_sentence: None,
        }
    }
}

impl BasicEditorActions {
    /// Records that the card changed: both the schema text and the engine workspace need
    /// updating.
    pub fn mark_changed(&mut self)
        ensures
            final(self).json_needs_sync,
            final(self).core_needs_sync,
            final(self).action_add_sentence == old(self).action_add_sentence,
            final(self).action_remove_sentence == old(self).action_remove_sentence,
    {
        self.json_needs_sync = true;
        self.core_needs_sync = true;
    }

    /// Takes over what the examples list asked for: adding or removing an example, and
    /// whether an example's text changed.
    pub fn take_example_actions(&mut self, examples: &ExampleActions)
        ensures
            final(self).action_add_sentence == (old(self).action_add_sentence
                || examples.add_example),
            final(self).action_remove_sentence == match examples.remove_example {
                Some(i) => Some(i),
                None => old(self).action_remove_sentence,
            },
            final(self).json_needs_sync == (old(self).json_needs_sync || examples.changed),
            final(self).core_needs_sync == (old(self).core_needs_sync || examples.changed),
    {
        if examples.add_example {
            self.action_add_sentence = true;
        }
        match examples.remove_example {
            Some(i) => {
                self.action_remove_sentence = Some(i);
            },
            None => {},
        }
        if examples.changed {
            self.mark_changed();
        }
    }
}

/// What the examples list of the card editor asks for after a frame.
#[derive(Debug)]
pub struct ExampleActions {
    pub add_example: bool,
    pub remove_example: Option<usize>,
    pub changed: bool,
}

impl Default for ExampleActions {
    /// Nothing asked for.
    fn default() -> (r: Self)
        ensures
            !r.add_example,
            r.remove_example is None,
            !r.changed,
    {
        ExampleActions { add_example: false, remove_example: None, changed: false }
    }
}

/// The text of an optional field as edited: trimmed, and none when blank.
pub fn optional_trimmed(text: &str) -> (r: Option<String>)
    ensures
        r.deep_view() == stored_language(text@),
{
    let t = trim_str(text);
    if t.as_str().is_empty() {
        None
    } else {
        Some(t)
    }
}

/// The tags as the tags field shows them: joined with `, `.
pub fn tags_text(tags: &Vec<String>) -> (r: String)
    ensures
        r@ == join(tags@.map_values(|t: String| t@), seq![',', ' ']),
{
    let ghost parts = tags@.map_values(|t: String| t@);
    let mut out = String::new();
    let mut i: usize = 0;
    proof {
        assert(parts.take(0) =~= Seq::<Seq<char>>::empty());
    }
    while i < tags.len()
        invariant
            i <= tags@.len(),
            parts == tags@.map_values(|t: String| t@),
            out@ == join(parts.take(i as int), seq![',', ' ']),
        decreases tags@.len() - i,
    {
        proof {
            lemma_join_push(parts.take(i as int), seq![',', ' '], parts[i as int]);
            assert(parts.take(i + 1) =~= parts.take(i as int).push(parts[i as int]));
        }
        if i > 0 {
            out.append(", ");
            proof {
                reveal_strlit(", ");
            }
        }
        out.append(tags[i].as_str());
        i = i + 1;
    }
    assert(parts.take(tags@.len() as int) =~= parts);
    out
}

/// The tags the tags field's text gives: its comma-separated parts, trimmed, without the
/// blank ones.
pub open spec fn tags_of_text(text: Seq<char>) -> Seq<Seq<char>> {
    nonblank(trimmed_parts(text))
}

/// The comma-separated parts of a text, each trimmed.
pub open spec fn trimmed_parts(text: Seq<char>) -> Seq<Seq<char>> {
    crate::input::split_on(text, ',').map_values(|p: Seq<char>| trim(p))
}

/// The texts that are not empty, in order.
pub open spec fn nonblank(s: Seq<Seq<char>>) -> Seq<Seq<char>> {
    s.filter(|t: Seq<char>| t.len() > 0)
}

/// Every tag that a tags field's text gives is trimmed and not empty.
pub proof fn lemma_tags_are_trimmed(text: Seq<char>)
    ensures
        forall|i: int|
            0 <= i < tags_of_text(text).len() ==> {
                &&& (#[trigger] tags_of_text(text)[i]).len() > 0
                &&& trim(tags_of_text(text)[i]) == tags_of_text(text)[i]
            },
{
    let parts = trimmed_parts(text);
    let pred = |t: Seq<char>| t.len() > 0;
    assert forall|i: int| 0 <= i < tags_of_text(text).len() implies {
        &&& (#[trigger] tags_of_text(text)[i]).len() > 0
        &&& trim(tags_of_text(text)[i]) == tags_of_text(text)[i]
    } by {
        let t = tags_of_text(text)[i];
        parts.lemma_filter_pred(pred, i);
        assert(parts.filter(pred).contains(t));
        parts.lemma_filter_contains_rev(pred, t);
        let j = choose|j: int| 0 <= j < parts.len() && parts[j] == t;
        let p = crate::input::split_on(text, ',')[j];
        assert(t == trim(p));
        lemma_trim_idempotent(p);
    }
}

/// A note or language kept from a field's text is trimmed and not empty.
pub proof fn lemma_stored_text_is_trimmed(text: Seq<char>)
    ensures
        stored_language(text) matches Some(t) ==> t.len() > 0 && trim(t) == t,
{
    lemma_trim_idempotent(text);
}

/// The tags the tags field's text gives.
pub fn parse_tags(text: &str) -> (r: Vec<String>)
    ensures
        r@.map_values(|t: String| t@) == tags_of_text(text@),
{
    let parts = crate::input::split_parts(text, ',');
    let ghost names = parts@.map_values(|p: String| p@);
    let ghost trimmed = trimmed_parts(text@);
    let mut out: Vec<String> = Vec::new();
    let mut i: usize = 0;
    proof {
        reveal(Seq::filter);
        assert(trimmed.take(0) =~= Seq::<Seq<char>>::empty());
        assert(out@.map_values(|t: String| t@) =~= nonblank(trimmed.take(0)));
    }
    while i < parts.len()
        invariant
            i <= parts@.len(),
            names == parts@.map_values(|p: String| p@),
            names == crate::input::split_on(text@, ','),
            trimmed == trimmed_parts(text@),
            trimmed.len() == names.len(),
            forall|k: int| 0 <= k < names.len() ==> #[trigger] trimmed[k] == trim(names[k]),
            out@.map_values(|t: String| t@) == nonblank(trimmed.take(i as int)),
        decreases parts@.len() - i,
    {
        let t = trim_str(parts[i].as_str());
        let ghost before = out@;
        proof {
            reveal(Seq::filter);
            assert(trimmed.take(i + 1).drop_last() =~= trimmed.take(i as int));
            assert(trimmed[i as int] == t@);
        }
        if !t.as_str().is_empty() {
            out.push(t);
            proof {
                assert(out@.map_values(|t: String| t@) =~= before.map_values(|t: String| t@).push(
                    trimmed[i as int],
                ));
            }
        }
        i = i + 1;
    }
    assert(trimmed.take(parts@.len() as int) =~= trimmed);
    out
}

/// A tag as the tags field can hold it: not blank, without surrounding whitespace, and
/// without a comma.
pub open spec fn is_plain_tag(t: Seq<char>) -> bool {
    &&& t.len() > 0
    &&& trim(t) == t
    &&& !t.contains(',')
}

proof fn lemma_split_without_separator(t: Seq<char>, sep: char)
    requires
        !t.contains(sep),
    ensures
        crate::input::split_on(t, sep) == seq![t],
    decreases t.len(),
{
    if t.len() == 0 {
        assert(t =~= Seq::<char>::empty());
    } else {
        let d = t.drop_last();
        assert(!d.contains(sep)) by {
            if d.contains(sep) {
                let i = choose|i: int| 0 <= i < d.len() && d[i] == sep;
                assert(t[i] == sep);
            }
        }
        lemma_split_without_separator(d, sep);
        assert(t.last() != sep) by {
            assert(t[t.len() - 1] == t.last());
        }
        assert(d.push(t.last()) =~= t);
    }
}

proof fn lemma_split_after_separator(s: Seq<char>, t: Seq<char>, sep: char)
    requires
        !t.contains(sep),
    ensures
        crate::input::split_on(s + seq![sep] + t, sep) == crate::input::split_on(s, sep).push(t),
    decreases t.len(),
{
    let x = s + seq![sep] + t;
    if t.len() == 0 {
        assert(x =~= s + seq![sep]);
        assert(x.drop_last() =~= s);
        assert(x.last() == sep);
        assert(t =~= Seq::<char>::empty());
    } else {
        let d = t.drop_last();
        assert(!d.contains(sep)) by {
            if d.contains(sep) {
                let i = choose|i: int| 0 <= i < d.len() && d[i] == sep;
                assert(t[i] == sep);
            }
        }
        lemma_split_after_separator(s, d, sep);
        assert(x.drop_last() =~= s + seq![sep] + d);
        assert(x.last() == t.last());
        assert(t.last() != sep) by {
            assert(t[t.len() - 1] == t.last());
        }
        crate::input::lemma_split_nonempty(s, sep);
        assert(d.push(t.last()) =~= t);
        let base = crate::input::split_on(s, sep);
        assert(base.push(d).update(base.len() as int, d.push(t.last())) =~= base.push(t));
    }
}

/// The parts of joined tags, split at the commas again: the first tag, then each later tag
/// with the space that followed its comma.
proof fn lemma_split_joined_tags(tags: Seq<Seq<char>>)
    requires
        tags.len() > 0,
        forall|i: int| 0 <= i < tags.len() ==> !(#[trigger] tags[i]).contains(','),
    ensures
        crate::input::split_on(join(tags, seq![',', ' ']), ',') == Seq::new(
            tags.len(),
            |i: int|
                if i == 0 {
                    tags[0]
                } else {
                    seq![' '] + tags[i]
                },
        ),
    decreases tags.len(),
{
    let want = Seq::new(
        tags.len(),
        |i: int|
            if i == 0 {
                tags[0]
            } else {
                seq![' '] + tags[i]
            },
    );
    if tags.len() == 1 {
        lemma_split_without_separator(tags[0], ',');
        assert(crate::input::split_on(join(tags, seq![',', ' ']), ',') =~= want);
    } else {
        let d = tags.drop_last();
        assert forall|i: int| 0 <= i < d.len() implies !(#[trigger] d[i]).contains(',') by {
            assert(d[i] == tags[i]);
        }
        lemma_split_joined_tags(d);
        let last = tags.last();
        let t = seq![' '] + last;
        assert(!t.contains(',')) by {
            assert(!tags[tags.len() - 1].contains(','));
            if t.contains(',') {
                let i = choose|i: int| 0 <= i < t.len() && t[i] == ',';
                assert(i > 0);
                assert(last[i - 1] == ',');
            }
        }
        let joined = join(tags, seq![',', ' ']);
        assert(joined == join(d, seq![',', ' ']) + seq![',', ' '] + last);
        assert(joined =~= join(d, seq![',', ' ']) + seq![','] + t);
        lemma_split_after_separator(join(d, seq![',', ' ']), t, ',');
        assert(crate::input::split_on(joined, ',') =~= want);
    }
}

proof fn lemma_trim_after_space(t: Seq<char>)
    requires
        trim(t) == t,
    ensures
        trim(seq![' '] + t) == t,
{
    let p = seq![' '] + t;
    assert(p.drop_first() =~= t);
    assert(crate::text::trim_start(p) == crate::text::trim_start(t));
}

proof fn lemma_filter_all_pass(s: Seq<Seq<char>>)
    requires
        forall|i: int| 0 <= i < s.len() ==> (#[trigger] s[i]).len() > 0,
    ensures
        nonblank(s) == s,
    decreases s.len(),
{
    reveal(Seq::filter);
    if s.len() > 0 {
        let d = s.drop_last();
        assert forall|i: int| 0 <= i < d.len() implies (#[trigger] d[i]).len() > 0 by {
            assert(d[i] == s[i]);
        }
        lemma_filter_all_pass(d);
        assert(s.last() == s[s.len() - 1]);
        assert(d.push(s.last()) =~= s);
    }
}

/// The tags field reads back what it shows: tags without surrounding whitespace or commas,
/// joined with `, ` and read again, are the same tags.
pub proof fn lemma_tags_round_trip(tags: Seq<Seq<char>>)
    requires
        forall|i: int| 0 <= i < tags.len() ==> is_plain_tag(#[trigger] tags[i]),
    ensures
        tags_of_text(join(tags, seq![',', ' '])) == tags,
{
    let text = join(tags, seq![',', ' ']);
    if tags.len() == 0 {
        reveal(Seq::filter);
        let parts = crate::input::split_on(text, ',');
        assert(parts =~= seq![Seq::<char>::empty()]);
        let trimmed = trimmed_parts(text);
        assert(trimmed[0] =~= Seq::<char>::empty());
        assert(trimmed.len() == 1);
        assert(trimmed.last().len() == 0);
        assert(trimmed.drop_last() =~= Seq::<Seq<char>>::empty());
        assert(nonblank(trimmed.drop_last()) =~= Seq::<Seq<char>>::empty());
        assert(nonblank(trimmed) =~= tags);
    } else {
        assert forall|i: int| 0 <= i < tags.len() implies !(#[trigger] tags[i]).contains(',') by {
            assert(is_plain_tag(tags[i]));
        }
        lemma_split_joined_tags(tags);
        let trimmed = trimmed_parts(text);
        assert forall|i: int| 0 <= i < tags.len() implies #[trigger] trimmed[i] == tags[i] by {
            assert(is_plain_tag(tags[i]));
            if i > 0 {
                lemma_trim_after_space(tags[i]);
            }
        }
        assert(trimmed =~= tags);
        lemma_filter_all_pass(tags);
    }
}

/// The lexical details a card gets when the editor first shows them: all empty.
pub open spec fn empty_lexical() -> LexicalInfoModel {
    LexicalInfoModel {
        phonetic: None,
        part_of_speech: None,
        forms: Seq::empty(),
        synonyms: Seq::empty(),
        antonyms: Seq::empty(),
    }
}

/// Gives the card empty lexical details when it has none, as the editor does before showing
/// the phonetic or part-of-speech field.
pub fn ensure_lexical(card: &mut Card)
    ensures
        final(card).lexical.deep_view() == match old(card).lexical.deep_view() {
            Some(l) => Some(l),
            None => Some(empty_lexical()),
        },
        final(card).deep_view() == (CardModel { lexical: final(card).lexical.deep_view(), ..old(card).deep_view() }),
{
    if card.lexical.is_none() {
        let l = LexicalInfo {
            phonetic: None,
            part_of_speech: None,
            forms: Vec::new(),
            synonyms: Vec::new(),
            antonyms: Vec::new(),
        };
        proof {
            assert(l.forms.deep_view() =~= Seq::<Seq<char>>::empty());
            assert(l.synonyms.deep_view() =~= Seq::<Seq<char>>::empty());
            assert(l.antonyms.deep_view() =~= Seq::<Seq<char>>::empty());
        }
        card.lexical = Some(l);
    }
}

/// The name a card kind is listed under in the card type selector.
pub open spec fn kind_name(kind: CardKind) -> Seq<char> {
    match kind {
        CardKind::Basic => "Basic (Term/Def)"@,
        CardKind::ImageOcclusion => "Image Occlusion"@,
        CardKind::Listening => "Listening"@,
        CardKind::MediaPrompt => "Media Prompt"@,
        CardKind::Cloze => "Cloze / Fill-in-the-blank"@,
    }
}

/// The name a card kind is listed under in the card type selector.
pub fn card_kind_name(kind: CardKind) -> (r: &'static str)
    ensures
        r@ == kind_name(kind),
{
    match kind {
        CardKind::Basic => "Basic (Term/Def)",
        CardKind::ImageOcclusion => "Image Occlusion",
        CardKind::Listening => "Listening",
        CardKind::MediaPrompt => "Media Prompt",
        CardKind::Cloze => "Cloze / Fill-in-the-blank",
    }
}

/// The occlusion a card gets from the image occlusion editor's create button: an image
/// reference with no source yet and no masks.
pub fn empty_occlusion() -> (r: Occlusion)
    ensures
        r.image.id is None,
        r.image.media_type@ == "image"@,
        r.image.role.deep_view() == Some("occlusion_image"@),
        r.image.src@.len() == 0,
        r.image.alt is None,
        r.image.description is None,
        r.masks@.len() == 0,
{
    Occlusion {
        image: MediaInfo {
            id: None,
            media_type: String::from_str("image"),
            role: Some(String::from_str("occlusion_image")),
            src: String::new(),
            alt: None,
            description: None,
        },
        masks: Vec::new(),
    }
}

/// `new` is `old` after the top bar's add-card button: the state is recorded for undo and,
/// with a deck open, a blank card with id `id` is added at the end and selected.
pub open spec fn add_card_post(old: MFlashStudioApp, new: MFlashStudioApp, id: Seq<char>) -> bool {
    &&& MFlashStudioApp::edit_recorded(old, new)
    &&& new.raw_schema_text == old.raw_schema_text
    &&& new.json_error == old.json_error
    &&& new.same_settings(&old)
    &&& old.deck is Some ==> {
        &&& new.deck is Some
        &&& deck_model(new) == with_cards(
            deck_model(old),
            cards_model(old).push(blank_card(id, None, None)),
        )
        &&& new.selected_index == cards_model(old).len()
    }
    &&& old.deck is None ==> new.deck is None && new.selected_index == old.selected_index
}

fn append_card(app: &mut MFlashStudioApp, card: Card)
    requires
        old(app).deck is Some,
    ensures
        final(app).deck is Some,
        deck_model(*final(app)) == with_cards(
            deck_model(*old(app)),
            cards_model(*old(app)).push(card.deep_view()),
        ),
        final(app).selected_index == cards_model(*old(app)).len(),
        final(app).raw_schema_text == old(app).raw_schema_text,
        final(app).json_error == old(app).json_error,
        final(app).undo_stack == old(app).undo_stack,
        final(app).redo_stack == old(app).redo_stack,
        final(app).same_settings(&*old(app)),
{
    let ghost old_cards = old(app).deck.unwrap().cards;
    match &mut app.deck {
        Some(deck) => {
            deck.cards.push(card);
            proof {
                assert(deck.cards.deep_view() =~= old_cards.deep_view().push(card.deep_view()));
            }
            let n = deck.cards.len();
            app.selected_index = n - 1;
        },
        None => {},
    }
}

/// Adds a blank card with id `id` at the end of the deck and selects it, recording the
/// state for undo.
pub fn add_card_at_end(app: &mut MFlashStudioApp, id: String)
    ensures
        add_card_post(*old(app), *final(app), id@),
{
    app.push_snapshot();
    if app.deck.is_some() {
        let card = blank(id, None, None);
        append_card(app, card);
    }
}

/// `new` is `old` after the examples list's add or remove button: the state is recorded
/// for undo and the selected card gets an empty text example at the end (when `add`) and
/// then loses the example at `remove` (when given).
pub open spec fn examples_edit_post(
    old: MFlashStudioApp,
    new: MFlashStudioApp,
    add: bool,
    remove: Option<usize>,
) -> bool {
    let cards = cards_model(old);
    let i = old.selected_index as int;
    let added = if add {
        cards[i].examples.push(ExampleModel::Text(Seq::empty()))
    } else {
        cards[i].examples
    };
    let edited = match remove {
        Some(r) => added.remove(r as int),
        None => added,
    };
    &&& MFlashStudioApp::edit_recorded(old, new)
    &&& new.raw_schema_text == old.raw_schema_text
    &&& new.json_error == old.json_error
    &&& new.selected_index == old.selected_index
    &&& new.same_settings(&old)
    &&& new.deck is Some
    &&& deck_model(new) == with_cards(
        deck_model(old),
        cards.update(i, CardModel { examples: edited, ..cards[i] }),
    )
}

/// Adds an empty example to the selected card and/or removes one from it, recording the
/// state for undo.
pub fn edit_examples(app: &mut MFlashStudioApp, add: bool, remove: Option<usize>)
    requires
        has_current(*old(app)),
        match remove {
            Some(r) => r < cards_model(*old(app))[old(app).selected_index as int].examples.len()
                + if add {
                1int
            } else {
                0int
            },
            None => true,
        },
    ensures
        examples_edit_post(*old(app), *final(app), add, remove),
{
    app.push_snapshot();
    let sel = app.selected_index;
    match &mut app.deck {
        Some(deck) => {
            let ghost old_cards = deck.cards.deep_view();
            let card = &mut deck.cards[sel];
            let ghost old_examples = card.examples.deep_view();
            if add {
                card.examples.push(Example::Text(String::new()));
            }
            let ghost added = card.examples.deep_view();
            proof {
                if add {
                    assert(added =~= old_examples.push(ExampleModel::Text(Seq::empty())));
                } else {
                    assert(added =~= old_examples);
                }
            }
            match remove {
                Some(r) => {
                    card.examples.remove(r);
                    proof {
                        assert(card.examples.deep_view() =~= added.remove(r as int));
                    }
                },
                None => {},
            }
            proof {
                assert(deck.cards.deep_view() =~= old_cards.update(
                    sel as int,
                    CardModel { examples: card.examples.deep_view(), ..old_cards[sel as int] },
                ));
            }
        },
        None => {},
    }
}

/// The media reference of an image dropped onto the editor: the illustration at `path`.
pub open spec fn dropped_image_media(path: Seq<char>) -> MediaInfoModel {
    MediaInfoModel {
        id: None,
        src: path,
        media_type: "image"@,
        role: Some("illustration"@),
        alt: None,
        description: None,
    }
}

/// `new` is `old` after an image at `path` was dropped onto the editor: with a deck open,
/// the state is recorded for undo and the selected card's media becomes just that image;
/// without one nothing changes.
pub open spec fn image_drop_post(old: MFlashStudioApp, new: MFlashStudioApp, path: Seq<char>) -> bool {
    if old.deck is Some {
        let cards = cards_model(old);
        let i = old.selected_index as int;
        &&& MFlashStudioApp::edit_recorded(old, new)
        &&& new.raw_schema_text == old.raw_schema_text
        &&& new.json_error == old.json_error
        &&& new.selected_index == old.selected_index
        &&& new.same_settings(&old)
        &&& new.deck is Some
        &&& deck_model(new) == with_cards(
            deck_model(old),
            cards.update(i, CardModel { media: seq![dropped_image_media(path)], ..cards[i] }),
        )
    } else {
        new == old
    }
}

/// Makes the image at `path` the selected card's only media, recording the state for undo.
pub fn set_card_image(app: &mut MFlashStudioApp, path: String)
    requires
        old(app).deck is Some ==> has_current(*old(app)),
    ensures
        image_drop_post(*old(app), *final(app), path@),
{
    if app.deck.is_none() {
        return;
    }
    app.push_snapshot();
    let sel = app.selected_index;
    let media = MediaInfo {
        id: None,
        src: path,
        media_type: String::from_str("image"),
        role: Some(String::from_str("illustration")),
        alt: None,
        description: None,
    };
    let mut list: Vec<MediaInfo> = Vec::new();
    list.push(media);
    match &mut app.deck {
        Some(deck) => {
            let ghost old_cards = deck.cards.deep_view();
            let card = &mut deck.cards[sel];
            card.media = list;
            proof {
                assert(card.media.deep_view() =~= seq![dropped_image_media(path@)]);
                assert(deck.cards.deep_view() =~= old_cards.update(
                    sel as int,
                    CardModel { media: card.media.deep_view(), ..old_cards[sel as int] },
                ));
            }
        },
        None => {},
    }
}

/// Whether a dropped file is taken as an image: its extension, lowercased, is `png`,
/// `jpg`, `jpeg`, `webp` or `gif`.
pub open spec fn droppable_image(path: Seq<char>) -> bool {
    let ext = unicode_lowercase(
        match std_path_extension(path) {
            Some(e) => e,
            None => Seq::<char>::empty(),
        },
    );
    ext == "png"@ || ext == "jpg"@ || ext == "jpeg"@ || ext == "webp"@ || ext == "gif"@
}

/// Whether a dropped file is taken as an image.
pub fn is_droppable_image(path: &str) -> (r: bool)
    ensures
        r == droppable_image(path@),
{
    let ext = match path_extension(path) {
        Some(e) => e,
        None => String::new(),
    };
    let e = to_lowercase(ext.as_str());
    let s = e.as_str();
    str_eq(s, "png") || str_eq(s, "jpg") || str_eq(s, "jpeg") || str_eq(s, "webp") || str_eq(
        s,
        "gif",
    )
}

/// The language a side of the cards falls back to: the deck's, or `English`.
pub fn deck_language_or_english(deck_lang: &Option<String>) -> (r: String)
    ensures
        r@ == match deck_lang.deep_view() {
            Some(l) => l,
            None => "English"@,
        },
{
    match deck_lang {
        Some(l) => l.clone(),
        None => String::from_str("English"),
    }
}

/// What the speak button does.
pub enum SpeechPlan {
    /// Nothing: speech is off and no recording was found.
    Nothing,
    /// Play the card's recording at `src`.
    PlayFile { src: String },
    /// Speak the term in its language (cutting off what is being spoken), then the
    /// definition in its language.
    Speak { term: String, term_lang: String, definition: String, def_lang: String },
}

fn find_audio(media: &Vec<MediaInfo>) -> (r: Option<usize>)
    ensures
        match r {
            Some(i) => i < media@.len() && media@[i as int].media_type@ == "audio"@ && forall|j: int|
                0 <= j < i ==> media@[j].media_type@ != "audio"@,
            None => forall|j: int| 0 <= j < media@.len() ==> media@[j].media_type@ != "audio"@,
        },
{
    let mut i: usize = 0;
    while i < media.len()
        invariant
            i <= media@.len(),
            forall|j: int| 0 <= j < i ==> media@[j].media_type@ != "audio"@,
        decreases media@.len() - i,
    {
        if str_eq(media[i].media_type.as_str(), "audio") {
            return Some(i);
        }
        i = i + 1;
    }
    None
}

/// What the speak button does for the selected card: with media audio on, the card's first
/// recording (media type `audio`) is played; otherwise, with speech on, the term is spoken
/// in its language (else `term_fallback`) and then the definition in its language (else
/// `def_fallback`), a missing term or definition as empty text. Nothing without a deck.
pub fn speech_plan(app: &MFlashStudioApp, term_fallback: &str, def_fallback: &str) -> (r: SpeechPlan)
    requires
        app.deck is Some ==> has_current(*app),
    ensures
        app.deck is None ==> r is Nothing,
        app.deck is Some ==> {
            let card = app.deck.unwrap().cards@[app.selected_index as int];
            let media = card.media.deep_view();
            let found = app.enable_media_audio && exists|j: int|
                0 <= j < media.len() && media[j].media_type == "audio"@;
            &&& found ==> (r matches SpeechPlan::PlayFile { src } && exists|j: int|
                0 <= j < media.len() && media[j].media_type == "audio"@ && src@ == media[j].src
                    && forall|k: int| 0 <= k < j ==> media[k].media_type != "audio"@)
            &&& !found && app.enable_tts ==> (r matches SpeechPlan::Speak {
                term,
                term_lang,
                definition,
                def_lang,
            } && term@ == match card.term.deep_view() {
                Some(t) => t,
                None => Seq::<char>::empty(),
            } && definition@ == match card.definition.deep_view() {
                Some(t) => t,
                None => Seq::<char>::empty(),
            } && term_lang@ == match card.term_lang.deep_view() {
                Some(l) => l,
                None => term_fallback@,
            } && def_lang@ == match card.def_lang.deep_view() {
                Some(l) => l,
                None => def_fallback@,
            })
            &&& !found && !app.enable_tts ==> r is Nothing
        },
{
    let deck = match &app.deck {
        Some(d) => d,
        None => return SpeechPlan::Nothing,
    };
    let card = &deck.cards[app.selected_index];
    if app.enable_media_audio {
        match find_audio(&card.media) {
            Some(i) => {
                proof {
                    assert(card.media.deep_view()[i as int] == card.media@[i as int].deep_view());
                }
                return SpeechPlan::PlayFile { src: card.media[i].src.clone() };
            },
            None => {
                proof {
                    assert forall|j: int| 0 <= j < card.media.deep_view().len() implies card.media.deep_view()[j].media_type != "audio"@ by {
                        assert(card.media.deep_view()[j] == card.media@[j].deep_view());
                    }
                }
            },
        }
    }
    if !app.enable_tts {
        return SpeechPlan::Nothing;
    }
    let term = match &card.term {
        Some(t) => t.clone(),
        None => String::new(),
    };
    let definition = match &card.definition {
        Some(t) => t.clone(),
        None => String::new(),
    };
    let term_lang = match &card.term_lang {
        Some(l) => l.clone(),
        None => String::from_str(term_fallback),
    };
    let def_lang = match &card.def_lang {
        Some(l) => l.clone(),
        None => String::from_str(def_fallback),
    };
    SpeechPlan::Speak { term, term_lang, definition, def_lang }
}

} // verus!
