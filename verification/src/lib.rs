//! Editing logic for `.mflash` flashcard decks.

pub mod archive;
pub mod assets;
pub mod audio;
pub mod browse;
pub mod config;
pub mod cover;
pub mod edit;
pub mod find;
pub mod input;
pub mod json;
pub mod json_sync;
pub mod menus;
pub mod models;
pub mod save;
pub mod search;
pub mod selection;
pub mod sfx;
pub mod studio;
pub mod text;
pub mod text_tools;
pub mod visual;
