//! Session selection, folder organisation and command logic for an
//! opencode session picker.

pub mod app;
pub mod cli;
pub mod color;
pub mod commands;
pub mod config;
pub mod display;
pub mod events;
pub mod folders;
pub mod json;
pub mod model;
pub mod number;
pub mod opencode_theme;
pub mod records;
pub mod sort;
pub mod strmap;
pub mod text;
pub mod theme;
pub mod upgrade;
