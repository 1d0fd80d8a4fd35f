//! The decisions of saving a deck through the deck engine's workspace: whether a save can
//! start and what must be flushed first, where the package goes, what each failure
//! reports, and which card fields a live save writes.

use vstd::prelude::*;
use crate::archive::{path_join, path_parent, std_path_join, std_path_parent};
use crate::models::MFlashDeck;
use crate::sfx::SoundEffect;
use crate::studio::{MFlashStudioApp, Workspace};

verus! {

/// How a save starts.
pub enum SaveStart {
    /// No engine workspace is open; the status message says so.
    Refused,
    /// The save goes on in the engine workspace `workspace_id`; first the card at
    /// `flush_card` is written to the workspace (when editing visually), and the schema text
    /// is parsed into the deck (when editing the schema).
    Proceed { workspace_id: String, flush_card: Option<usize>, parse_schema: bool },
}

/// `new` is `old` but for the status message.
pub open spec fn only_status_changed(old: MFlashStudioApp, new: MFlashStudioApp) -> bool {
    &&& new.same_document(&old)
    &&& new.same_settings(&old)
}

/// Starts a save: refused (with a status message) without an engine workspace, else says
/// what must be flushed first.
pub fn begin_save(app: &mut MFlashStudioApp) -> (r: SaveStart)
    ensures
        match old(app).active_workspace_id {
            None => {
                &&& r is Refused
                &&& only_status_changed(*old(app), *final(app))
                &&& final(app).json_error.deep_view() == Some(
                    "Save Error: No active mflash-core workspace."@,
                )
            },
            Some(id) => {
                &&& r matches SaveStart::Proceed { workspace_id, flush_card, parse_schema }
                &&& workspace_id@ == id@
                &&& flush_card == if old(app).workspace == Workspace::VisualEditor {
                    Some(old(app).selected_index)
                } else {
                    None
                }
                &&& parse_schema == (old(app).workspace == Workspace::SchemaEditor)
                &&& *final(app) == *old(app)
            },
        },
{
    match &app.active_workspace_id {
        None => {
            app.json_error = Some(String::from_str("Save Error: No active mflash-core workspace."));
            SaveStart::Refused
        },
        Some(id) => {
            let flush_card = if app.workspace == Workspace::VisualEditor {
                Some(app.selected_index)
            } else {
                None
            };
            SaveStart::Proceed {
                workspace_id: id.clone(),
                flush_card,
                parse_schema: app.workspace == Workspace::SchemaEditor,
            }
        },
    }
}

/// The step of a save that failed.
#[derive(Clone, Copy, Debug, PartialEq, Eq, Structural)]
pub enum SaveStage {
    /// No cache directory for the workspace could be found.
    CacheDir,
    /// The workspace database could not be opened.
    ConnectDb,
    /// The database could not be exported to the deck format.
    ExportDb,
    /// The exported deck could not be written into the workspace.
    WriteDeck,
    /// The workspace could not be packed into the package file.
    Pack,
}

/// The status message for a save that failed at `stage` with the error text `error`.
pub open spec fn save_failure_message(stage: SaveStage, error: Seq<char>) -> Seq<char> {
    match stage {
        SaveStage::CacheDir => "Save Error: Could not find home/cache directory."@,
        SaveStage::ConnectDb => "Save Error: Failed to connect to DB: "@ + error,
        SaveStage::ExportDb => "Save Error: Failed to compile DB to Protobuf: "@ + error,
        SaveStage::WriteDeck => "Save Error: Failed to write deck.pb: "@ + error,
        SaveStage::Pack => "Save Error: Failed to pack deck: "@ + error,
    }
}

fn failure_message(stage: SaveStage, error: &str) -> (r: String)
    ensures
        r@ == save_failure_message(stage, error@),
{
    let mut m = match stage {
        SaveStage::CacheDir => {
            return String::from_str("Save Error: Could not find home/cache directory.");
        },
        SaveStage::ConnectDb => String::from_str("Save Error: Failed to connect to DB: "),
        SaveStage::ExportDb => String::from_str("Save Error: Failed to compile DB to Protobuf: "),
        SaveStage::WriteDeck => String::from_str("Save Error: Failed to write deck.pb: "),
        SaveStage::Pack => String::from_str("Save Error: Failed to pack deck: "),
    };
    m.append(error);
    m
}

/// Reports that a save failed at `stage` with the error text `error`.
pub fn report_save_failure(app: &mut MFlashStudioApp, stage: SaveStage, error: &str)
    ensures
        only_status_changed(*old(app), *final(app)),
        final(app).json_error.deep_view() == Some(save_failure_message(stage, error@)),
{
    let message = failure_message(stage, error);
    app.json_error = Some(message);
}

/// Where the package is written: the deck's path, or `None` when the deck has none yet and
/// the user must choose one.
pub fn save_target(app: &MFlashStudioApp) -> (r: Option<String>)
    ensures
        app.path@.len() == 0 ==> r is None,
        app.path@.len() > 0 ==> (r matches Some(p) && p@ == app.path@),
{
    if app.path.as_str().is_empty() {
        None
    } else {
        Some(app.path.clone())
    }
}

/// Makes `path` the deck's path, as a save to a newly chosen file does.
pub fn set_deck_path(app: &mut MFlashStudioApp, path: String)
    ensures
        final(app).path == path,
        final(app).same_document(&*old(app)),
        final(app).json_error == old(app).json_error,
        final(app).workspace == old(app).workspace,
{
    app.path = path;
}

/// Clears the status message after a successful save, and answers the sound that confirms
/// it.
pub fn finish_save(app: &mut MFlashStudioApp) -> (sound: SoundEffect)
    ensures
        only_status_changed(*old(app), *final(app)),
        final(app).json_error is None,
        sound == SoundEffect::Save,
{
    app.json_error = None;
    SoundEffect::Save
}

/// The fields of a card that a live save writes to the engine workspace.
pub struct LiveSaveCard {
    pub id: String,
    pub term: Option<String>,
    pub definition: Option<String>,
    pub prompt: Option<String>,
    pub answer: Option<String>,
}

/// Whether a live save writes the card at `card_index`: live saving is on, a deck is open
/// and it has that card.
pub open spec fn live_saves(app: MFlashStudioApp, card_index: usize) -> bool {
    &&& app.enable_live_save
    &&& app.deck is Some
    &&& card_index < app.deck.unwrap().cards@.len()
}

/// The fields that a live save writes for the card at `card_index`, when it writes one.
pub fn live_save_card(app: &MFlashStudioApp, card_index: usize) -> (r: Option<LiveSaveCard>)
    ensures
        r is Some <==> live_saves(*app, card_index),
        r matches Some(c) ==> {
            let card = app.deck.unwrap().cards@[card_index as int];
            &&& c.id@ == card.id@
            &&& c.term.deep_view() == card.term.deep_view()
            &&& c.definition.deep_view() == card.definition.deep_view()
            &&& c.prompt.deep_view() == card.prompt.deep_view()
            &&& c.answer.deep_view() == card.answer.deep_view()
        },
{
    if !app.enable_live_save {
        return None;
    }
    let deck: &MFlashDeck = match &app.deck {
        Some(d) => d,
        None => return None,
    };
    if card_index >= deck.cards.len() {
        return None;
    }
    let card = &deck.cards[card_index];
    Some(
        LiveSaveCard {
            id: card.id.clone(),
            term: card.term.clone(),
            definition: card.definition.clone(),
            prompt: card.prompt.clone(),
            answer: card.answer.clone(),
        },
    )
}

/// The cache folder of the engine workspace, where its database lies: the folder of the
/// database the deck was opened from, else `.mflash_cache/<workspace id>` under the home
/// folder `home`.
pub open spec fn cache_folder(
    db_path: Option<String>,
    workspace_id: Option<String>,
    home: Option<String>,
) -> Option<Seq<char>> {
    let from_db = match db_path {
        Some(p) => std_path_parent(p@),
        None => None,
    };
    match from_db {
        Some(folder) => Some(folder),
        None => match (workspace_id, home) {
            (Some(id), Some(h)) => Some(std_path_join(std_path_join(h@, ".mflash_cache"@), id@)),
            _ => None,
        },
    }
}

/// The cache folder of `app`'s engine workspace (see `cache_folder`), which saves and live
/// saves write to, given the user's home folder `home`.
pub fn workspace_cache_folder(app: &MFlashStudioApp, home: Option<String>) -> (r: Option<String>)
    ensures
        r.deep_view() == cache_folder(app.active_db_path, app.active_workspace_id, home),
{
    let from_db: Option<String> = match &app.active_db_path {
        Some(p) => path_parent(p.as_str()),
        None => None,
    };
    match from_db {
        Some(folder) => Some(folder),
        None => match (&app.active_workspace_id, &home) {
            (Some(id), Some(h)) => {
                let cache = path_join(h.as_str(), ".mflash_cache");
                Some(path_join(cache.as_str(), id.as_str()))
            },
            _ => None,
        },
    }
}

} // verus!
