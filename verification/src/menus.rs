//! What the menu bar's items do to the studio's state and what they report: clipboard and
//! selection messages, the schema editor's format items, and the find items.

use vstd::prelude::*;
use crate::edit::has_current;
use crate::find::only_find_bar_changed;
use crate::studio::{MFlashStudioApp, SchemaFormat, Workspace};

verus! {

/// `new` is `old` but for the status message.
pub open spec fn status_only(old: MFlashStudioApp, new: MFlashStudioApp) -> bool {
    &&& new.same_document(&old)
    &&& new.same_settings(&old)
}

/// Reports that Cut copied the tracked selection (the text field keeps its text).
pub fn report_cut(app: &mut MFlashStudioApp)
    ensures
        status_only(*old(app), *final(app)),
        final(app).json_error.deep_view() == Some(
            "Cut copied the last tracked selection. Direct text removal still belongs to the active text field."@,
        ),
{
    app.json_error = Some(
        String::from_str(
            "Cut copied the last tracked selection. Direct text removal still belongs to the active text field.",
        ),
    );
}

/// Reports that pasting goes through the active text field.
pub fn report_paste(app: &mut MFlashStudioApp)
    ensures
        status_only(*old(app), *final(app)),
        final(app).json_error.deep_view() == Some(
            "Use Ctrl+V inside the active text field. Menu paste is limited by this egui version."@,
        ),
{
    app.json_error = Some(
        String::from_str(
            "Use Ctrl+V inside the active text field. Menu paste is limited by this egui version.",
        ),
    );
}

/// Select All: in the schema editor, the whole schema text becomes the tracked selection;
/// elsewhere the status message says where it works.
pub fn select_all(app: &mut MFlashStudioApp)
    ensures
        final(app).same_document(&*old(app)),
        old(app).workspace == Workspace::SchemaEditor ==> {
            &&& final(app).last_selected_text == old(app).raw_schema_text
            &&& final(app).json_error.deep_view() == Some(
                "Schema text copied into the app selection buffer."@,
            )
        },
        old(app).workspace != Workspace::SchemaEditor ==> {
            &&& final(app).last_selected_text == old(app).last_selected_text
            &&& final(app).json_error.deep_view() == Some(
                "Select All is currently implemented for the Schema Editor buffer."@,
            )
        },
        final(app).workspace == old(app).workspace,
        final(app).path == old(app).path,
        final(app).same_find_settings(&*old(app)),
        final(app).find_matches == old(app).find_matches,
        final(app).current_match_idx == old(app).current_match_idx,
{
    if app.workspace == Workspace::SchemaEditor {
        app.last_selected_text = app.raw_schema_text.clone();
        app.json_error = Some(String::from_str("Schema text copied into the app selection buffer."));
    } else {
        app.json_error = Some(
            String::from_str("Select All is currently implemented for the Schema Editor buffer."),
        );
    }
}

/// Select Current Card: with a card selected, its serialized text (or the serializing
/// error) is taken; the text becomes the tracked selection. Without a card nothing changes.
pub fn take_card_selection(app: &mut MFlashStudioApp, serialized: Result<String, String>)
    ensures
        !has_current(*old(app)) ==> *final(app) == *old(app),
        has_current(*old(app)) ==> {
            &&& final(app).same_document(&*old(app))
            &&& final(app).workspace == old(app).workspace
            &&& final(app).same_find_settings(&*old(app))
            &&& match serialized {
                Ok(text) => {
                    &&& final(app).last_selected_text == text
                    &&& final(app).json_error.deep_view() == Some(
                        "Current card copied into the app selection buffer."@,
                    )
                },
                Err(e) => {
                    &&& final(app).last_selected_text == old(app).last_selected_text
                    &&& final(app).json_error.deep_view() == Some("Selection Error: "@ + e@)
                },
            }
        },
{
    if !crate::edit::has_current_card(app) {
        return;
    }
    match serialized {
        Ok(text) => {
            app.last_selected_text = text;
            app.json_error = Some(
                String::from_str("Current card copied into the app selection buffer."),
            );
        },
        Err(e) => {
            let mut m = String::from_str("Selection Error: ");
            m.append(e.as_str());
            app.json_error = Some(m);
        },
    }
}

/// The name a schema format is offered under.
pub open spec fn format_name(f: SchemaFormat) -> Seq<char> {
    match f {
        SchemaFormat::Json => "JSON"@,
        SchemaFormat::Toml => "TOML"@,
        SchemaFormat::Yaml => "YAML"@,
        SchemaFormat::Xml => "XML"@,
    }
}

/// The name a schema format is offered under.
pub fn format_label(f: SchemaFormat) -> (r: &'static str)
    ensures
        r@ == format_name(f),
{
    match f {
        SchemaFormat::Json => "JSON",
        SchemaFormat::Toml => "TOML",
        SchemaFormat::Yaml => "YAML",
        SchemaFormat::Xml => "XML",
    }
}

/// What a schema editor menu item reports when it succeeded.
#[derive(Clone, Copy, Debug, PartialEq, Eq, Structural)]
pub enum SchemaReport {
    /// Format Document.
    Formatted,
    /// Validate Schema.
    Valid,
    /// Sync Text to Deck.
    Synced,
    /// Refresh Text from Deck.
    Refreshed,
    /// Convert Format, from within the schema editor.
    Converted(SchemaFormat),
    /// Convert Format, from another workspace.
    Opened(SchemaFormat),
}

/// The status message of a schema editor menu item that succeeded.
pub open spec fn schema_report_message(r: SchemaReport) -> Seq<char> {
    match r {
        SchemaReport::Formatted => "Schema formatted successfully."@,
        SchemaReport::Valid => "Schema is valid."@,
        SchemaReport::Synced => "Schema text synced to deck."@,
        SchemaReport::Refreshed => "Schema text refreshed from deck."@,
        SchemaReport::Converted(f) => "Schema converted to "@ + format_name(f) + "."@,
        SchemaReport::Opened(f) => "Opened Schema Editor as "@ + format_name(f) + "."@,
    }
}

/// Reports that a schema editor menu item succeeded.
pub fn report_schema(app: &mut MFlashStudioApp, report: SchemaReport)
    ensures
        status_only(*old(app), *final(app)),
        final(app).json_error.deep_view() == Some(schema_report_message(report)),
{
    let message = match report {
        SchemaReport::Formatted => String::from_str("Schema formatted successfully."),
        SchemaReport::Valid => String::from_str("Schema is valid."),
        SchemaReport::Synced => String::from_str("Schema text synced to deck."),
        SchemaReport::Refreshed => String::from_str("Schema text refreshed from deck."),
        SchemaReport::Converted(f) => {
            let mut m = String::from_str("Schema converted to ");
            m.append(format_label(f));
            m.append(".");
            m
        },
        SchemaReport::Opened(f) => {
            let mut m = String::from_str("Opened Schema Editor as ");
            m.append(format_label(f));
            m.append(".");
            m
        },
    };
    app.json_error = Some(message);
}

/// Makes `f` the format the schema editor shows the deck in.
pub fn set_schema_format(app: &mut MFlashStudioApp, f: SchemaFormat)
    ensures
        final(app).active_schema_format == f,
        final(app).same_document(&*old(app)),
        final(app).json_error == old(app).json_error,
        final(app).workspace == old(app).workspace,
        final(app).same_find_settings(&*old(app)),
{
    app.active_schema_format = f;
}

/// Find... and Replace... in the Edit menu: shows the find bar, and its replace row when
/// asked.
pub fn show_find_bar(app: &mut MFlashStudioApp, with_replace: bool)
    ensures
        only_find_bar_changed(*old(app), *final(app)),
        final(app).find_visible,
        final(app).replace_visible == (old(app).replace_visible || with_replace),
        final(app).find_matches == old(app).find_matches,
        final(app).current_match_idx == old(app).current_match_idx,
{
    app.find_visible = true;
    if with_replace {
        app.replace_visible = true;
    }
}

/// Find... in the View menu: shows or hides the find bar in any workspace; hiding it also
/// forgets the matches.
pub fn toggle_find_from_view_menu(app: &mut MFlashStudioApp)
    ensures
        only_find_bar_changed(*old(app), *final(app)),
        final(app).find_visible == !old(app).find_visible,
        final(app).replace_visible == old(app).replace_visible,
        old(app).find_visible ==> final(app).find_matches@.len() == 0 && final(app).current_match_idx
            == 0,
        !old(app).find_visible ==> final(app).find_matches == old(app).find_matches
            && final(app).current_match_idx == old(app).current_match_idx,
{
    app.find_visible = !app.find_visible;
    if !app.find_visible {
        app.find_matches.clear();
        app.current_match_idx = 0;
    }
}

} // verus!
