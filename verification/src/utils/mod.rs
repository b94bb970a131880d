pub mod path;
pub mod text;
