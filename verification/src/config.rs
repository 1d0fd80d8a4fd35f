//! The parts of the studio configuration that the editing logic reads.

use vstd::prelude::*;

verus! {

/// Which plugins are switched on, by name.
#[derive(Debug)]
pub struct PluginsConfig {
    pub enabled: Vec<String>,
}

/// Which workspaces the workspace bar offers.
#[derive(Debug, Clone, Copy, PartialEq, Eq, Structural)]
pub struct WorkspacesConfig {
    pub show_deck: bool,
    pub show_browse: bool,
    pub show_visual_editor: bool,
    pub show_media: bool,
    pub show_schema_editor: bool,
}

impl Default for WorkspacesConfig {
    /// Every workspace is offered.
    fn default() -> (r: Self)
        ensures
            r.show_deck && r.show_browse && r.show_visual_editor && r.show_media
                && r.show_schema_editor,
    {
        WorkspacesConfig {
            show_deck: true,
            show_browse: true,
            show_visual_editor: true,
            show_media: true,
            show_schema_editor: true,
        }
    }
}

impl Default for PluginsConfig {
    /// No plugin is switched on.
    fn default() -> (r: Self)
        ensures
            r.enabled@.len() == 0,
    {
        PluginsConfig { enabled: Vec::new() }
    }
}

/// The keyboard shortcuts, each written as keys joined by `+` (such as `Ctrl+S`).
#[derive(Debug)]
pub struct ShortcutsConfig {
    pub next_card: String,
    pub prev_card: String,
    pub next_list_item: String,
    pub prev_list_item: String,
    pub view_card: String,
    pub back_to_list: String,
    pub next_workspace: String,
    pub prev_workspace: String,
    pub workspace_deck: String,
    pub workspace_browse: String,
    pub workspace_visual_editor: String,
    pub workspace_media: String,
    pub workspace_schema_editor: String,
    pub save_deck: String,
    pub open_settings: String,
    pub toggle_find: String,
    pub exit_fullscreen: String,
    pub zoom_in: String,
    pub zoom_out: String,
    pub actual_size: String,
}

impl Default for ShortcutsConfig {
    /// The studio's standard key bindings.
    fn default() -> (r: Self)
        ensures
            r.next_card@ == "ArrowRight"@,
            r.prev_card@ == "ArrowLeft"@,
            r.next_list_item@ == "ArrowDown"@,
            r.prev_list_item@ == "ArrowUp"@,
            r.view_card@ == "Enter"@,
            r.back_to_list@ == "Escape"@,
            r.next_workspace@ == "Ctrl+Tab"@,
            r.prev_workspace@ == "Ctrl+Shift+Tab"@,
            r.workspace_deck@ == "Ctrl+1"@,
            r.workspace_browse@ == "Ctrl+2"@,
            r.workspace_visual_editor@ == "Ctrl+3"@,
            r.workspace_media@ == "Ctrl+4"@,
            r.workspace_schema_editor@ == "Ctrl+5"@,
            r.save_deck@ == "Ctrl+S"@,
            r.open_settings@ == "Ctrl+Comma"@,
            r.toggle_find@ == "Ctrl+F"@,
            r.exit_fullscreen@ == "F11"@,
            r.zoom_in@ == "Ctrl+Plus"@,
            r.zoom_out@ == "Ctrl+Minus"@,
            r.actual_size@ == "Ctrl+0"@,
    {
        ShortcutsConfig {
            next_card: String::from_str("ArrowRight"),
            prev_card: String::from_str("ArrowLeft"),
            next_list_item: String::from_str("ArrowDown"),
            prev_list_item: String::from_str("ArrowUp"),
            view_card: String::from_str("Enter"),
            back_to_list: String::from_str("Escape"),
            next_workspace: String::from_str("Ctrl+Tab"),
            prev_workspace: String::from_str("Ctrl+Shift+Tab"),
            workspace_deck: String::from_str("Ctrl+1"),
            workspace_browse: String::from_str("Ctrl+2"),
            workspace_visual_editor: String::from_str("Ctrl+3"),
            workspace_media: String::from_str("Ctrl+4"),
            workspace_schema_editor: String::from_str("Ctrl+5"),
            save_deck: String::from_str("Ctrl+S"),
            open_settings: String::from_str("Ctrl+Comma"),
            toggle_find: String::from_str("Ctrl+F"),
            exit_fullscreen: String::from_str("F11"),
            zoom_in: String::from_str("Ctrl+Plus"),
            zoom_out: String::from_str("Ctrl+Minus"),
            actual_size: String::from_str("Ctrl+0"),
        }
    }
}

impl Clone for ShortcutsConfig {
    fn clone(&self) -> (r: Self)
        ensures
            r.next_card == self.next_card,
            r.prev_card == self.prev_card,
            r.next_list_item == self.next_list_item,
            r.prev_list_item == self.prev_list_item,
            r.view_card == self.view_card,
            r.back_to_list == self.back_to_list,
            r.next_workspace == self.next_workspace,
            r.prev_workspace == self.prev_workspace,
            r.workspace_deck == self.workspace_deck,
            r.workspace_browse == self.workspace_browse,
            r.workspace_visual_editor == self.workspace_visual_editor,
            r.workspace_media == self.workspace_media,
            r.workspace_schema_editor == self.workspace_schema_editor,
            r.save_deck == self.save_deck,
            r.open_settings == self.open_settings,
            r.toggle_find == self.toggle_find,
            r.exit_fullscreen == self.exit_fullscreen,
            r.zoom_in == self.zoom_in,
            r.zoom_out == self.zoom_out,
            r.actual_size == self.actual_size,
    {
        ShortcutsConfig {
            next_card: self.next_card.clone(),
            prev_card: self.prev_card.clone(),
            next_list_item: self.next_list_item.clone(),
            prev_list_item: self.prev_list_item.clone(),
            view_card: self.view_card.clone(),
            back_to_list: self.back_to_list.clone(),
            next_workspace: self.next_workspace.clone(),
            prev_workspace: self.prev_workspace.clone(),
            workspace_deck: self.workspace_deck.clone(),
            workspace_browse: self.workspace_browse.clone(),
            workspace_visual_editor: self.workspace_visual_editor.clone(),
            workspace_media: self.workspace_media.clone(),
            workspace_schema_editor: self.workspace_schema_editor.clone(),
            save_deck: self.save_deck.clone(),
            open_settings: self.open_settings.clone(),
            toggle_find: self.toggle_find.clone(),
            exit_fullscreen: self.exit_fullscreen.clone(),
            zoom_in: self.zoom_in.clone(),
            zoom_out: self.zoom_out.clone(),
            actual_size: self.actual_size.clone(),
        }
    }
}

impl Clone for PluginsConfig {
    fn clone(&self) -> (r: Self)
        ensures
            r.enabled@ == self.enabled@,
    {
        let enabled = self.enabled.clone();
        proof {
            assert(enabled@ =~= self.enabled@);
        }
        PluginsConfig { enabled }
    }
}

} // verus!
