pub mod epub;
pub mod txt;
