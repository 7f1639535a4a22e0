pub mod text;
pub mod model;
pub mod sort;
pub mod adb;
pub mod ui;
pub mod screen;
pub mod laws;
pub mod layout;
