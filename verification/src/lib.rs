//! Core logic of the Mimic terminal note editor: vault tree navigation,
//! soft wrapping, themes, settings, extension bookkeeping and the command
//! language, each stated against a mathematical model.
pub mod modes;
pub mod tabs;
pub mod text;
pub mod cli;
pub mod command;
pub mod config;
pub mod editor;
pub mod keys;
pub mod extensions;
pub mod normal;
pub mod paths;
pub mod ui;
pub mod vault;
