//! A terminal e-book reader: book content model, text and EPUB parsing,
//! reading-position logic and the key-driven state machine behind the UI.

pub mod app;
pub mod book;
pub mod tui;
pub mod utils;
