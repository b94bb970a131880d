pub mod scrollbar;
pub mod status_bar;
