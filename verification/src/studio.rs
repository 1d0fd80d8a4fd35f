//! The editor's state: the open deck, its schema text, the selection and the
//! undo/redo history, with the operations that move between states.

use crate::config::WorkspacesConfig;
use crate::models::{DeckModel, MFlashDeck};
use std::ops::Range;
use vstd::prelude::*;

verus! {

/// The text format the schema editor shows the deck in.
#[derive(Debug, Clone, Copy, PartialEq, Eq, Structural)]
pub enum SchemaFormat {
    Json,
    Toml,
    Yaml,
    Xml,
}

/// The editor's workspaces.
#[derive(Debug, Clone, Copy, PartialEq, Eq, Structural)]
pub enum Workspace {
    Deck,
    Browse,
    VisualEditor,
    Media,
    SchemaEditor,
}

/// Content of an [`AppStateSnapshot`]: the part of the editor state that undo restores.
pub struct SnapshotModel {
    pub deck: Option<DeckModel>,
    pub raw_schema_text: Seq<char>,
    pub selected_index: usize,
}

/// A recorded editor state, kept on the undo and redo stacks.
#[derive(Debug)]
pub struct AppStateSnapshot {
    pub deck: Option<MFlashDeck>,
    pub raw_schema_text: String,
    pub selected_index: usize,
}

impl DeepView for AppStateSnapshot {
    type V = SnapshotModel;

    open spec fn deep_view(&self) -> SnapshotModel {
        SnapshotModel {
            deck: self.deck.deep_view(),
            raw_schema_text: self.raw_schema_text@,
            selected_index: self.selected_index,
        }
    }
}

impl Clone for AppStateSnapshot {
    fn clone(&self) -> (r: Self)
        ensures
            r.deep_view() == self.deep_view(),
    {
        AppStateSnapshot {
            deck: self.deck.clone(),
            raw_schema_text: self.raw_schema_text.clone(),
            selected_index: self.selected_index,
        }
    }
}

/// What the central panel of the window shows.
#[derive(Clone, Copy, Debug, PartialEq, Eq, Structural)]
pub enum CentralView {
    /// "No deck loaded."
    NoDeck,
    /// "No card selected."
    NoCardSelected,
    /// The workspace itself.
    Workspace(Workspace),
}

/// The editor's state, apart from what only the user interface holds
/// (textures, audio devices, plugins).
#[derive(Debug)]
pub struct MFlashStudioApp {
    pub path: String,
    pub deck: Option<MFlashDeck>,
    pub raw_schema_text: String,
    pub json_error: Option<String>,
    /// The identifier of the engine workspace the deck was extracted into.
    pub active_workspace_id: Option<String>,
    /// The live JSON dump of the workspace database.
    pub active_schema_json: Option<String>,
    /// Whether edits are saved to the workspace database as they happen.
    pub enable_live_save: bool,
    /// The path of the workspace database, when the deck was opened through the engine.
    pub active_db_path: Option<String>,
    pub workspace: Workspace,
    pub active_schema_format: SchemaFormat,
    pub selected_index: usize,
    pub search_query: String,
    pub lang_search_query: String,
    pub find_visible: bool,
    pub replace_visible: bool,
    pub find_query: String,
    pub replace_query: String,
    pub find_use_regex: bool,
    pub find_case_sensitive: bool,
    /// Byte ranges of the find matches in the schema text.
    pub find_matches: Vec<Range<usize>>,
    pub current_match_idx: usize,
    pub undo_stack: Vec<AppStateSnapshot>,
    pub redo_stack: Vec<AppStateSnapshot>,
    pub last_selected_text: String,
    pub last_cursor_range: Option<Range<usize>>,
    pub editor_mode: bool,
    pub show_images: bool,
    pub show_settings: bool,
    pub settings_category: String,
    pub show_lang_codes: bool,
    pub show_phonetic: bool,
    pub show_part_of_speech: bool,
    pub show_notes: bool,
    pub show_tags: bool,
    pub enable_tts: bool,
    pub enable_media_audio: bool,
}

impl MFlashStudioApp {
    /// The part of the state that a snapshot records.
    pub open spec fn snapshot_of(&self) -> SnapshotModel {
        SnapshotModel {
            deck: self.deck.deep_view(),
            raw_schema_text: self.raw_schema_text@,
            selected_index: self.selected_index,
        }
    }

    /// The undo stack's snapshots, oldest first.
    pub open spec fn undo_history(&self) -> Seq<SnapshotModel> {
        self.undo_stack.deep_view()
    }

    /// The redo stack's snapshots, oldest first.
    pub open spec fn redo_history(&self) -> Seq<SnapshotModel> {
        self.redo_stack.deep_view()
    }

    /// `self` and `other` agree on the find bar's settings.
    pub open spec fn same_find_settings(&self, other: &Self) -> bool {
        &&& self.find_visible == other.find_visible
        &&& self.replace_visible == other.replace_visible
        &&& self.find_query == other.find_query
        &&& self.replace_query == other.replace_query
        &&& self.find_use_regex == other.find_use_regex
        &&& self.find_case_sensitive == other.find_case_sensitive
    }

    /// `self` and `other` agree on the file, the workspace and the view options.
    pub open spec fn same_view_options(&self, other: &Self) -> bool {
        &&& self.path == other.path
        &&& self.active_workspace_id == other.active_workspace_id
        &&& self.active_schema_json == other.active_schema_json
        &&& self.enable_live_save == other.enable_live_save
        &&& self.active_db_path == other.active_db_path
        &&& self.workspace == other.workspace
        &&& self.active_schema_format == other.active_schema_format
        &&& self.search_query == other.search_query
        &&& self.lang_search_query == other.lang_search_query
        &&& self.last_selected_text == other.last_selected_text
        &&& self.last_cursor_range == other.last_cursor_range
        &&& self.editor_mode == other.editor_mode
        &&& self.show_images == other.show_images
        &&& self.show_settings == other.show_settings
        &&& self.settings_category == other.settings_category
        &&& self.show_lang_codes == other.show_lang_codes
        &&& self.show_phonetic == other.show_phonetic
        &&& self.show_part_of_speech == other.show_part_of_speech
        &&& self.show_notes == other.show_notes
        &&& self.show_tags == other.show_tags
        &&& self.enable_tts == other.enable_tts
        &&& self.enable_media_audio == other.enable_media_audio
    }

    /// `self` and `other` agree on every field that neither the snapshot nor the history
    /// nor the status message covers.
    pub open spec fn same_settings(&self, other: &Self) -> bool {
        &&& self.same_view_options(other)
        &&& self.same_find_settings(other)
        &&& self.find_matches == other.find_matches
        &&& self.current_match_idx == other.current_match_idx
    }

    /// `self` and `other` hold the same deck, schema text, selection and history.
    pub open spec fn same_document(&self, other: &Self) -> bool {
        &&& self.deck == other.deck
        &&& self.raw_schema_text == other.raw_schema_text
        &&& self.selected_index == other.selected_index
        &&& self.undo_stack == other.undo_stack
        &&& self.redo_stack == other.redo_stack
    }

    /// `new` is `old` after an edit was recorded for undo: the state before the edit is the
    /// newest snapshot on the undo stack, and the redo stack is empty.
    pub open spec fn edit_recorded(old: Self, new: Self) -> bool {
        &&& new.undo_history() == old.undo_history().push(old.snapshot_of())
        &&& new.redo_history().len() == 0
    }

    /// `new` is `old` after `push_snapshot`.
    pub open spec fn push_snapshot_post(old: Self, new: Self) -> bool {
        &&& Self::edit_recorded(old, new)
        &&& new.deck == old.deck
        &&& new.raw_schema_text == old.raw_schema_text
        &&& new.selected_index == old.selected_index
        &&& new.json_error == old.json_error
        &&& new.same_settings(&old)
    }

    /// `new` is `old` after `undo`, which answered `restored`.
    pub open spec fn undo_post(old: Self, new: Self, restored: bool) -> bool {
        &&& restored == (old.undo_stack@.len() > 0)
        &&& !restored ==> new == old
        &&& restored ==> {
            &&& new.snapshot_of() == old.undo_history().last()
            &&& new.undo_history() == old.undo_history().drop_last()
            &&& new.redo_history() == old.redo_history().push(old.snapshot_of())
            &&& new.json_error == old.json_error
            &&& new.same_settings(&old)
        }
    }

    /// `new` is `old` after `redo`, which answered `restored`.
    pub open spec fn redo_post(old: Self, new: Self, restored: bool) -> bool {
        &&& restored == (old.redo_stack@.len() > 0)
        &&& !restored ==> new == old
        &&& restored ==> {
            &&& new.snapshot_of() == old.redo_history().last()
            &&& new.redo_history() == old.redo_history().drop_last()
            &&& new.undo_history() == old.undo_history().push(old.snapshot_of())
            &&& new.json_error == old.json_error
            &&& new.same_settings(&old)
        }
    }

    /// A snapshot of the current deck, schema text and selection.
    pub fn snapshot(&self) -> (r: AppStateSnapshot)
        ensures
            r.deep_view() == self.snapshot_of(),
    {
        AppStateSnapshot {
            deck: self.deck.clone(),
            raw_schema_text: self.raw_schema_text.clone(),
            selected_index: self.selected_index,
        }
    }

    /// Records the current state on the undo stack and forgets what could be redone.
    pub fn push_snapshot(&mut self)
        ensures
            Self::push_snapshot_post(*old(self), *final(self)),
    {
        let snap = self.snapshot();
        self.undo_stack.push(snap);
        self.redo_stack.clear();
        proof {
            assert(self.undo_history() =~= old(self).undo_history().push(old(self).snapshot_of()));
        }
    }

    /// Restores the newest snapshot of the undo stack, recording the current state for redo.
    /// Answers whether there was a snapshot to restore.
    pub fn undo(&mut self) -> (restored: bool)
        ensures
            Self::undo_post(*old(self), *final(self), restored),
    {
        if self.undo_stack.len() == 0 {
            return false;
        }
        let current = self.snapshot();
        let prev = self.undo_stack.pop().unwrap();
        self.redo_stack.push(current);
        self.deck = prev.deck;
        self.raw_schema_text = prev.raw_schema_text;
        self.selected_index = prev.selected_index;
        proof {
            assert(self.undo_history() =~= old(self).undo_history().drop_last());
            assert(self.redo_history() =~= old(self).redo_history().push(old(self).snapshot_of()));
        }
        true
    }

    /// Restores the newest snapshot of the redo stack, recording the current state for undo.
    /// Answers whether there was a snapshot to restore.
    pub fn redo(&mut self) -> (restored: bool)
        ensures
            Self::redo_post(*old(self), *final(self), restored),
    {
        if self.redo_stack.len() == 0 {
            return false;
        }
        let current = self.snapshot();
        let next = self.redo_stack.pop().unwrap();
        self.undo_stack.push(current);
        self.deck = next.deck;
        self.raw_schema_text = next.raw_schema_text;
        self.selected_index = next.selected_index;
        proof {
            assert(self.redo_history() =~= old(self).redo_history().drop_last());
            assert(self.undo_history() =~= old(self).undo_history().push(old(self).snapshot_of()));
        }
        true
    }
}

/// The workspaces the bar offers, in bar order; the browser alone when none is switched on.
pub open spec fn visible_list(c: WorkspacesConfig) -> Seq<Workspace> {
    let all = (if c.show_deck {
        seq![Workspace::Deck]
    } else {
        seq![]
    }) + (if c.show_browse {
        seq![Workspace::Browse]
    } else {
        seq![]
    }) + (if c.show_visual_editor {
        seq![Workspace::VisualEditor]
    } else {
        seq![]
    }) + (if c.show_media {
        seq![Workspace::Media]
    } else {
        seq![]
    }) + (if c.show_schema_editor {
        seq![Workspace::SchemaEditor]
    } else {
        seq![]
    });
    if all.len() == 0 {
        seq![Workspace::Browse]
    } else {
        all
    }
}

/// At most five workspaces are offered, and at least one.
pub proof fn lemma_visible_list_len(c: WorkspacesConfig)
    ensures
        1 <= visible_list(c).len() <= 5,
{
    let a: Seq<Workspace> = if c.show_deck {
        seq![Workspace::Deck]
    } else {
        seq![]
    };
    let b: Seq<Workspace> = if c.show_browse {
        seq![Workspace::Browse]
    } else {
        seq![]
    };
    let v: Seq<Workspace> = if c.show_visual_editor {
        seq![Workspace::VisualEditor]
    } else {
        seq![]
    };
    let m: Seq<Workspace> = if c.show_media {
        seq![Workspace::Media]
    } else {
        seq![]
    };
    let e: Seq<Workspace> = if c.show_schema_editor {
        seq![Workspace::SchemaEditor]
    } else {
        seq![]
    };
    assert(a.len() <= 1 && b.len() <= 1 && v.len() <= 1 && m.len() <= 1 && e.len() <= 1);
    assert((a + b + v + m + e).len() == a.len() + b.len() + v.len() + m.len() + e.len());
}

/// The position of the first `w` in `ws`, or 0 when there is none.
pub open spec fn position_or_first(ws: Seq<Workspace>, w: Workspace) -> int {
    if exists|i: int| 0 <= i < ws.len() && ws[i] == w {
        choose|i: int| 0 <= i < ws.len() && ws[i] == w && forall|j: int| 0 <= j < i ==> ws[j] != w
    } else {
        0
    }
}

impl MFlashStudioApp {
    /// An editor showing `deck` (if any) from `path`, with `raw_schema_text` in the schema
    /// editor, in the browser, with the standard view options.
    pub fn new(path: String, deck: Option<MFlashDeck>, raw_schema_text: String) -> (r: Self)
        ensures
            r.path == path,
            r.deck == deck,
            r.raw_schema_text == raw_schema_text,
            r.json_error is None,
            r.workspace == Workspace::Browse,
            r.active_schema_format == SchemaFormat::Json,
            r.selected_index == 0,
            r.enable_live_save,
            r.editor_mode,
            r.show_images,
            !r.show_settings,
            r.settings_category@ == "Flashcards"@,
            r.enable_tts,
            r.enable_media_audio,
            r.undo_stack@.len() == 0,
            r.redo_stack@.len() == 0,
            r.find_matches@.len() == 0,
            r.current_match_idx == 0,
    {
        MFlashStudioApp {
            path,
            deck,
            raw_schema_text,
            json_error: None,
            active_workspace_id: None,
            active_schema_json: None,
            enable_live_save: true,
            active_db_path: None,
            workspace: Workspace::Browse,
            active_schema_format: SchemaFormat::Json,
            selected_index: 0,
            search_query: String::new(),
            lang_search_query: String::new(),
            find_visible: false,
            replace_visible: false,
            find_query: String::new(),
            replace_query: String::new(),
            find_use_regex: false,
            find_case_sensitive: false,
            find_matches: Vec::new(),
            current_match_idx: 0,
            undo_stack: Vec::new(),
            redo_stack: Vec::new(),
            last_selected_text: String::new(),
            last_cursor_range: None,
            editor_mode: true,
            show_images: true,
            show_settings: false,
            settings_category: String::from_str("Flashcards"),
            show_lang_codes: false,
            show_phonetic: false,
            show_part_of_speech: false,
            show_notes: false,
            show_tags: false,
            enable_tts: true,
            enable_media_audio: true,
        }
    }

    /// The number of cards of the open deck, or 0 without one.
    pub open spec fn card_count(&self) -> nat {
        match self.deck {
            Some(d) => d.cards@.len(),
            None => 0,
        }
    }

    /// Whether a deck is open and the selection points at one of its cards.
    pub fn has_valid_selected_card(&self) -> (r: bool)
        ensures
            r == (self.deck is Some && self.selected_index < self.card_count()),
    {
        match &self.deck {
            Some(deck) => deck.cards.len() > 0 && self.selected_index < deck.cards.len(),
            None => false,
        }
    }

    /// Selects the card at `new_index`, or the last card when it is past the end. Answers
    /// whether the selection changed; nothing changes without a card.
    /// `new` is `old` after selecting the card at `new_index` (or the last card when it is
    /// past the end); `changed` tells whether the selection moved.
    pub open spec fn set_index_post(old: Self, new: Self, new_index: usize, changed: bool) -> bool {
        let target: usize = if new_index < old.card_count() {
            new_index
        } else {
            (old.card_count() - 1) as usize
        };
        if old.card_count() > 0 && old.selected_index != target {
            &&& changed
            &&& new.selected_index == target
            &&& new.deck == old.deck
            &&& new.raw_schema_text == old.raw_schema_text
            &&& new.undo_stack == old.undo_stack
            &&& new.redo_stack == old.redo_stack
            &&& new.json_error == old.json_error
            &&& new.same_settings(&old)
        } else {
            &&& !changed
            &&& new == old
        }
    }

    pub fn set_index(&mut self, new_index: usize) -> (changed: bool)
        ensures
            Self::set_index_post(*old(self), *final(self), new_index, changed),
    {
        let len: usize = self.card_total();
        if len == 0 {
            return false;
        }
        let target: usize = if new_index < len {
            new_index
        } else {
            len - 1
        };
        if self.selected_index != target {
            self.select(target);
            true
        } else {
            false
        }
    }

    fn card_total(&self) -> (r: usize)
        ensures
            r == self.card_count(),
    {
        match &self.deck {
            Some(deck) => deck.cards.len(),
            None => 0,
        }
    }

    fn select(&mut self, target: usize)
        ensures
            final(self).selected_index == target,
            final(self).deck == old(self).deck,
            final(self).raw_schema_text == old(self).raw_schema_text,
            final(self).undo_stack == old(self).undo_stack,
            final(self).redo_stack == old(self).redo_stack,
            final(self).json_error == old(self).json_error,
            final(self).same_settings(&*old(self)),
    {
        self.selected_index = target;
    }

    /// Selects the next card (the selection stays on the last one).
    pub fn select_next(&mut self) -> (changed: bool)
        ensures
            Self::set_index_post(
                *old(self),
                *final(self),
                if old(self).selected_index < usize::MAX {
                    (old(self).selected_index + 1) as usize
                } else {
                    usize::MAX
                },
                changed,
            ),
    {
        let next = self.selected_index.saturating_add(1);
        self.set_index(next)
    }

    /// Selects the previous card (the selection stays on the first one).
    pub fn select_previous(&mut self) -> (changed: bool)
        ensures
            Self::set_index_post(
                *old(self),
                *final(self),
                if old(self).selected_index > 0 {
                    (old(self).selected_index - 1) as usize
                } else {
                    0
                },
                changed,
            ),
    {
        let previous = self.selected_index.saturating_sub(1);
        self.set_index(previous)
    }

    /// The workspaces the bar offers, in bar order.
    pub fn visible_workspaces(&self, config: &WorkspacesConfig) -> (r: Vec<Workspace>)
        ensures
            r@ == visible_list(*config),
    {
        let mut workspaces: Vec<Workspace> = Vec::new();
        if config.show_deck {
            workspaces.push(Workspace::Deck);
        }
        if config.show_browse {
            workspaces.push(Workspace::Browse);
        }
        if config.show_visual_editor {
            workspaces.push(Workspace::VisualEditor);
        }
        if config.show_media {
            workspaces.push(Workspace::Media);
        }
        if config.show_schema_editor {
            workspaces.push(Workspace::SchemaEditor);
        }
        if workspaces.len() == 0 {
            workspaces.push(Workspace::Browse);
        }
        proof {
            assert(workspaces@ =~= visible_list(*config));
        }
        workspaces
    }

    /// The offered workspace `offset` places away from the current one in bar order, wrapping
    /// around at both ends; counting starts from the first workspace when the current one is
    /// not offered.
    pub fn workspace_by_offset(&self, config: &WorkspacesConfig, offset: isize) -> (r: Workspace)
        ensures
            ({
                let ws = visible_list(*config);
                r == ws[(position_or_first(ws, self.workspace) + offset) % (ws.len() as int)]
            }),
    {
        let workspaces = self.visible_workspaces(config);
        let len: usize = workspaces.len();
        proof {
            lemma_visible_list_len(*config);
        }
        let current: usize = position_of(&workspaces, self.workspace);
        let index: usize = wrap_index(current, offset, len);
        workspaces[index]
    }
}

/// `current + offset` wrapped into `0..len`, as `rem_euclid` computes it.
fn wrap_index(current: usize, offset: isize, len: usize) -> (r: usize)
    requires
        0 < len <= 8,
        current < len,
    ensures
        r == (current + offset) % (len as int),
{
    if offset >= 0 {
        let step: usize = (offset as usize) % len;
        proof {
            vstd::arithmetic::div_mod::lemma_add_mod_noop_right(
                current as int,
                offset as int,
                len as int,
            );
        }
        (current + step) % len
    } else {
        let magnitude: u128 = (-(offset as i128)) as u128;
        let step: usize = (magnitude % (len as u128)) as usize;
        proof {
            let m = magnitude as int;
            vstd::arithmetic::div_mod::lemma_sub_mod_noop_right(current as int, m, len as int);
            vstd::arithmetic::div_mod::lemma_mod_add_multiples_vanish(
                current - m % (len as int),
                len as int,
            );
            assert(offset as int == -m);
        }
        (current + len - step) % len
    }
}

/// The position of the first `w` in `ws`, or 0 when there is none.
fn position_of(ws: &Vec<Workspace>, w: Workspace) -> (r: usize)
    ensures
        r == position_or_first(ws@, w),
{
    let mut i: usize = 0;
    while i < ws.len()
        invariant
            i <= ws@.len(),
            forall|j: int| 0 <= j < i ==> ws@[j] != w,
        decreases ws@.len() - i,
    {
        if ws[i] == w {
            proof {
                let p = position_or_first(ws@, w);
                assert(ws@[i as int] == w);
                assert(p == i) by {
                    if p < i {
                        assert(ws@[p] != w);
                    }
                    if p > i {
                    }
                }
            }
            return i;
        }
        i = i + 1;
    }
    0
}

impl MFlashStudioApp {
    /// The selection kept within a deck of `len` cards: the last card when it is past the end,
    /// and 0 for an empty deck.
    pub open spec fn clamped_selection(selected: usize, len: nat) -> usize {
        if len == 0 {
            0
        } else if selected < len {
            selected
        } else {
            (len - 1) as usize
        }
    }

    fn clamp_selection(&mut self)
        requires
            old(self).deck is Some,
        ensures
            final(self).selected_index == Self::clamped_selection(
                old(self).selected_index,
                old(self).card_count(),
            ),
            final(self).deck == old(self).deck,
            final(self).raw_schema_text == old(self).raw_schema_text,
            final(self).undo_stack == old(self).undo_stack,
            final(self).redo_stack == old(self).redo_stack,
            final(self).json_error == old(self).json_error,
            final(self).same_settings(&*old(self)),
    {
        let len: usize = self.card_total();
        if len == 0 {
            self.select(0);
        } else if self.selected_index >= len {
            self.select(len - 1);
        }
    }

    fn set_status(&mut self, message: Option<String>)
        ensures
            final(self).json_error == message,
            final(self).same_document(&*old(self)),
            final(self).same_settings(&*old(self)),
    {
        self.json_error = message;
    }

    /// Takes the deck parsed from the schema text (or the parse error), as the schema editor
    /// does when its text is applied. Answers whether there was a deck.
    pub fn sync_text_to_deck(&mut self, parsed: Result<MFlashDeck, String>) -> (ok: bool)
        ensures
            ok == parsed is Ok,
            match parsed {
                Ok(deck) => {
                    &&& final(self).deck == Some(deck)
                    &&& final(self).selected_index == Self::clamped_selection(
                        old(self).selected_index,
                        deck.cards@.len(),
                    )
                    &&& final(self).json_error is None
                },
                Err(e) => {
                    &&& final(self).deck == old(self).deck
                    &&& final(self).selected_index == old(self).selected_index
                    &&& final(self).json_error.deep_view() == Some("Schema Parse Error: "@ + e@)
                },
            },
            final(self).raw_schema_text == old(self).raw_schema_text,
            final(self).undo_stack == old(self).undo_stack,
            final(self).redo_stack == old(self).redo_stack,
            final(self).same_settings(&*old(self)),
    {
        match parsed {
            Ok(deck) => {
                self.take_deck(deck);
                self.clamp_selection();
                self.set_status(None);
                true
            },
            Err(e) => {
                let mut message = String::from_str("Schema Parse Error: ");
                message.append(e.as_str());
                self.set_status(Some(message));
                false
            },
        }
    }

    fn take_deck(&mut self, deck: MFlashDeck)
        ensures
            final(self).deck == Some(deck),
            final(self).selected_index == old(self).selected_index,
            final(self).raw_schema_text == old(self).raw_schema_text,
            final(self).undo_stack == old(self).undo_stack,
            final(self).redo_stack == old(self).redo_stack,
            final(self).json_error == old(self).json_error,
            final(self).same_settings(&*old(self)),
    {
        self.deck = Some(deck);
    }

    fn set_schema_text(&mut self, text: String)
        ensures
            final(self).raw_schema_text == text,
            final(self).deck == old(self).deck,
            final(self).selected_index == old(self).selected_index,
            final(self).undo_stack == old(self).undo_stack,
            final(self).redo_stack == old(self).redo_stack,
            final(self).json_error == old(self).json_error,
            final(self).same_settings(&*old(self)),
    {
        self.raw_schema_text = text;
    }

    /// Takes the schema text rendered from the deck in the active format (or the render
    /// error); without a deck the schema text is emptied.
    pub fn refresh_schema_text(&mut self, rendered: Result<String, String>)
        ensures
            old(self).deck is None ==> {
                &&& final(self).raw_schema_text@.len() == 0
                &&& final(self).json_error is None
            },
            old(self).deck is Some ==> match rendered {
                Ok(text) => {
                    &&& final(self).raw_schema_text == text
                    &&& final(self).json_error is None
                },
                Err(e) => {
                    &&& final(self).raw_schema_text == old(self).raw_schema_text
                    &&& final(self).json_error.deep_view() == Some("Schema Render Error: "@ + e@)
                },
            },
            final(self).deck == old(self).deck,
            final(self).selected_index == old(self).selected_index,
            final(self).undo_stack == old(self).undo_stack,
            final(self).redo_stack == old(self).redo_stack,
            final(self).same_settings(&*old(self)),
    {
        if self.deck.is_none() {
            self.show_schema_text(String::new());
        } else {
            match rendered {
                Ok(text) => self.show_schema_text(text),
                Err(e) => self.report_render_error(e),
            }
        }
    }

    fn show_schema_text(&mut self, text: String)
        ensures
            final(self).raw_schema_text == text,
            final(self).json_error is None,
            final(self).deck == old(self).deck,
            final(self).selected_index == old(self).selected_index,
            final(self).undo_stack == old(self).undo_stack,
            final(self).redo_stack == old(self).redo_stack,
            final(self).same_settings(&*old(self)),
    {
        self.set_schema_text(text);
        self.set_status(None);
    }

    fn report_render_error(&mut self, e: String)
        ensures
            final(self).json_error.deep_view() == Some("Schema Render Error: "@ + e@),
            final(self).same_document(&*old(self)),
            final(self).same_settings(&*old(self)),
    {
        let mut message = String::from_str("Schema Render Error: ");
        message.append(e.as_str());
        self.set_status(Some(message));
    }

    /// Shows the deck loaded from `path` with its normalized JSON text, when loading worked.
    /// Answers whether there was a deck.
    pub fn open_deck(&mut self, path: String, loaded: Option<(MFlashDeck, String)>) -> (opened: bool)
        ensures
            opened == loaded is Some,
            match loaded {
                Some((deck, text)) => {
                    &&& final(self).path == path
                    &&& final(self).deck == Some(deck)
                    &&& final(self).raw_schema_text == text
                    &&& final(self).active_schema_format == SchemaFormat::Json
                    &&& final(self).selected_index == 0
                    &&& final(self).json_error is None
                    &&& final(self).undo_stack == old(self).undo_stack
                    &&& final(self).redo_stack == old(self).redo_stack
                    &&& final(self).workspace == old(self).workspace
                },
                None => *final(self) == *old(self),
            },
    {
        match loaded {
            Some((deck, text)) => {
                self.path = path;
                self.deck = Some(deck);
                self.active_schema_format = SchemaFormat::Json;
                self.raw_schema_text = text;
                self.selected_index = 0;
                self.json_error = None;
                true
            },
            None => false,
        }
    }

    /// Closes the deck: no deck, no path and no schema text.
    pub fn close_deck(&mut self)
        ensures
            final(self).deck is None,
            final(self).path@.len() == 0,
            final(self).raw_schema_text@.len() == 0,
            final(self).selected_index == old(self).selected_index,
            final(self).undo_stack == old(self).undo_stack,
            final(self).redo_stack == old(self).redo_stack,
            final(self).workspace == old(self).workspace,
    {
        self.deck = None;
        self.path = String::new();
        self.raw_schema_text = String::new();
    }

    /// Replaces the deck by one parsed from the schema text, recording the old state for undo
    /// and keeping the selection within the new deck.
    pub fn apply_schema_deck(&mut self, deck: MFlashDeck)
        ensures
            Self::edit_recorded(*old(self), *final(self)),
            final(self).deck == Some(deck),
            final(self).selected_index == Self::clamped_selection(
                old(self).selected_index,
                deck.cards@.len(),
            ),
            final(self).json_error is None,
            final(self).raw_schema_text == old(self).raw_schema_text,
            final(self).same_settings(&*old(self)),
    {
        self.push_snapshot();
        self.take_deck(deck);
        self.set_status(None);
        self.clamp_selection();
    }

    /// Moves to the workspace `target`. Leaving the schema editor needs its text to have
    /// been taken into the deck (`text_synced`, the outcome of `sync_text_to_deck`); the visual
    /// editor needs a card, and keeps the selection within the deck. Answers whether the
    /// workspace changed; nothing changes when it did not.
    pub fn switch_workspace(&mut self, target: Workspace, text_synced: bool) -> (switched: bool)
        ensures
            switched == (old(self).workspace != target && (old(self).workspace
                == Workspace::SchemaEditor ==> text_synced) && (target == Workspace::VisualEditor
                ==> old(self).card_count() > 0)),
            switched ==> {
                &&& final(self).workspace == target
                &&& final(self).selected_index == if target == Workspace::VisualEditor {
                    Self::clamped_selection(old(self).selected_index, old(self).card_count())
                } else {
                    old(self).selected_index
                }
                &&& final(self).same_document_but_selection(&*old(self))
                &&& final(self).json_error == old(self).json_error
                &&& final(self).same_view_options_but_workspace(&*old(self))
            },
            !switched ==> *final(self) == *old(self),
    {
        if self.workspace == target {
            return false;
        }
        if self.workspace == Workspace::SchemaEditor && !text_synced {
            return false;
        }
        if target == Workspace::VisualEditor {
            if self.card_total() == 0 {
                return false;
            }
            self.clamp_selection();
        }
        self.set_workspace(target);
        true
    }

    /// `self` and `other` hold the same deck, schema text and history.
    pub open spec fn same_document_but_selection(&self, other: &Self) -> bool {
        &&& self.deck == other.deck
        &&& self.raw_schema_text == other.raw_schema_text
        &&& self.undo_stack == other.undo_stack
        &&& self.redo_stack == other.redo_stack
    }

    /// `self` and `other` agree on everything that `same_settings` covers but the workspace.
    pub open spec fn same_view_options_but_workspace(&self, other: &Self) -> bool {
        &&& Self { workspace: other.workspace, ..*self }.same_settings(other)
    }

    fn set_workspace(&mut self, target: Workspace)
        ensures
            final(self).workspace == target,
            final(self).same_document(&*old(self)),
            final(self).json_error == old(self).json_error,
            final(self).same_view_options_but_workspace(&*old(self)),
    {
        self.workspace = target;
    }

    /// What the central panel shows: a notice without a deck (but in the schema editor), a
    /// notice in the visual editor without a selected card, else the current workspace.
    pub fn central_view(&self) -> (r: CentralView)
        ensures
            r == if self.deck is None && self.workspace != Workspace::SchemaEditor {
                CentralView::NoDeck
            } else if self.workspace == Workspace::VisualEditor && !(self.deck is Some
                && self.selected_index < self.card_count()) {
                CentralView::NoCardSelected
            } else {
                CentralView::Workspace(self.workspace)
            },
    {
        if self.deck.is_none() && self.workspace != Workspace::SchemaEditor {
            CentralView::NoDeck
        } else if self.workspace == Workspace::VisualEditor && !self.has_valid_selected_card() {
            CentralView::NoCardSelected
        } else {
            CentralView::Workspace(self.workspace)
        }
    }

    /// The source of the first media reference of the selected card: the image the visual
    /// editor shows.
    pub fn current_image_src(&self) -> (r: Option<String>)
        ensures
            match r {
                Some(src) => {
                    &&& self.deck is Some
                    &&& self.selected_index < self.card_count()
                    &&& self.deck.unwrap().cards@[self.selected_index as int].media@.len() > 0
                    &&& src@ == self.deck.unwrap().cards@[self.selected_index as int].media@[0].src@
                },
                None => !(self.deck is Some && self.selected_index < self.card_count()
                    && self.deck.unwrap().cards@[self.selected_index as int].media@.len() > 0),
            },
    {
        match &self.deck {
            Some(deck) => {
                if self.selected_index >= deck.cards.len() {
                    return None;
                }
                let card = &deck.cards[self.selected_index];
                if card.media.len() == 0 {
                    return None;
                }
                Some(card.media[0].src.clone())
            },
            None => None,
        }
    }
}

/// Moving to the next card and then to the previous one comes back to the card one started
/// from, with the deck unchanged, when there is a next card.
pub proof fn lemma_previous_reverts_next(
    start: MFlashStudioApp,
    forward: MFlashStudioApp,
    back: MFlashStudioApp,
    moved_forward: bool,
    moved_back: bool,
)
    requires
        start.card_count() <= usize::MAX,
        start.selected_index + 1 < start.card_count(),
        MFlashStudioApp::set_index_post(
            start,
            forward,
            if start.selected_index < usize::MAX {
                (start.selected_index + 1) as usize
            } else {
                usize::MAX
            },
            moved_forward,
        ),
        MFlashStudioApp::set_index_post(
            forward,
            back,
            if forward.selected_index > 0 {
                (forward.selected_index - 1) as usize
            } else {
                0
            },
            moved_back,
        ),
    ensures
        moved_forward,
        moved_back,
        back.selected_index == start.selected_index,
        back.deck == start.deck,
{
    assert(forward.card_count() == start.card_count());
}

/// Undoing right after a recorded edit gives back the state from before the edit, and the
/// undo stack as it was before the edit.
pub proof fn lemma_undo_reverts_edit(
    before: MFlashStudioApp,
    edited: MFlashStudioApp,
    after: MFlashStudioApp,
    restored: bool,
)
    requires
        MFlashStudioApp::edit_recorded(before, edited),
        MFlashStudioApp::undo_post(edited, after, restored),
    ensures
        restored,
        after.snapshot_of() == before.snapshot_of(),
        after.undo_history() == before.undo_history(),
        after.redo_history() == seq![edited.snapshot_of()],
{
    assert(edited.undo_history().len() > 0);
    assert(edited.undo_history().drop_last() =~= before.undo_history());
    assert(after.redo_history() =~= seq![edited.snapshot_of()]);
}

/// Redo right after undo gives back the state from before the undo, with both stacks as
/// they were.
pub proof fn lemma_redo_reverts_undo(
    start: MFlashStudioApp,
    undone: MFlashStudioApp,
    redone: MFlashStudioApp,
    undo_restored: bool,
    redo_restored: bool,
)
    requires
        MFlashStudioApp::undo_post(start, undone, undo_restored),
        undo_restored,
        MFlashStudioApp::redo_post(undone, redone, redo_restored),
    ensures
        redo_restored,
        redone.snapshot_of() == start.snapshot_of(),
        redone.undo_history() == start.undo_history(),
        redone.redo_history() == start.redo_history(),
        redone.json_error == start.json_error,
        redone.same_settings(&start),
{
    assert(undone.redo_history().len() > 0);
    assert(redone.redo_history() =~= start.redo_history());
    let u = start.undo_history();
    assert(u.drop_last().push(u.last()) =~= u);
}

/// Undo right after redo gives back the state from before the redo, with both stacks as
/// they were.
pub proof fn lemma_undo_reverts_redo(
    start: MFlashStudioApp,
    redone: MFlashStudioApp,
    undone: MFlashStudioApp,
    redo_restored: bool,
    undo_restored: bool,
)
    requires
        MFlashStudioApp::redo_post(start, redone, redo_restored),
        redo_restored,
        MFlashStudioApp::undo_post(redone, undone, undo_restored),
    ensures
        undo_restored,
        undone.snapshot_of() == start.snapshot_of(),
        undone.undo_history() == start.undo_history(),
        undone.redo_history() == start.redo_history(),
        undone.json_error == start.json_error,
        undone.same_settings(&start),
{
    assert(redone.undo_history().len() > 0);
    assert(undone.undo_history() =~= start.undo_history());
    let r = start.redo_history();
    assert(r.drop_last().push(r.last()) =~= r);
}

/// A recorded edit leaves nothing to redo.
pub proof fn lemma_edit_clears_redo(before: MFlashStudioApp, edited: MFlashStudioApp, after: MFlashStudioApp, restored: bool)
    requires
        MFlashStudioApp::edit_recorded(before, edited),
        MFlashStudioApp::redo_post(edited, after, restored),
    ensures
        !restored,
        after == edited,
{
}

} // verus!
