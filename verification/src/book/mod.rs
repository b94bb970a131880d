pub mod content;
pub mod formats;
pub mod parser;
