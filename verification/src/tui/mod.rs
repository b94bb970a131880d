pub mod components;
pub mod keys;
pub mod ui;
