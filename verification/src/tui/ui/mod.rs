pub mod bookmarks;
pub mod help;
pub mod library;
pub mod reader;
pub mod selection;
