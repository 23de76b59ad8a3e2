//! The interactive front end without its terminal: what each key does to the
//! menu and to a running simulation, and what there is to show, as rows of
//! text with tones. Drawing the rows and reading the keys are not here.

pub mod alignment;
pub mod cells;
pub mod handler;
pub mod key;
pub mod listing;
pub mod menu;
pub mod menu_rows;
pub mod screen;
pub mod simulation;
