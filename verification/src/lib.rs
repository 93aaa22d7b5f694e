//! Verified core of a terminal disk-space navigator: the folder tree that a
//! scan builds, navigation through it, the ordering of a folder's entries,
//! keyboard-driven tile selection, box-drawing symbol merging and text
//! truncation for the title and modal lines.

pub mod app_state;
pub mod board;
pub mod bottom_line;
pub mod controls;
pub mod display;
pub mod events;
pub mod file_tree;
pub mod files;
pub mod grid;
pub mod layout;
pub mod listing;
pub mod modals;
pub mod os;
pub mod symbols;
pub mod tile_text;
pub mod title;
pub mod tree_laws;
pub mod truncate;
pub mod ui_effects;
