pub mod settings;
pub mod state;
