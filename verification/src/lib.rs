//! The narrative runtime of a choice-driven text game: template resolution,
//! prompt classification, choice application and reversible history.

pub mod audio;
pub mod choice;
pub mod context;
pub mod discord;
pub mod display;
pub mod error;
pub mod game;
pub mod info;
pub mod input;
pub mod laws;
pub mod manifest;
pub mod notes;
pub mod parse;
pub mod path;
pub mod player;
pub mod prompt;
pub mod resources;
pub mod runtime;
pub mod scripts;
pub mod spans;
pub mod strings;
pub mod table;
pub mod templating;
pub mod variables;
