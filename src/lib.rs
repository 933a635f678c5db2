pub mod board;
pub mod components;
pub mod laws;
pub mod resources;
pub mod rules;
pub mod ui;
pub mod input;
