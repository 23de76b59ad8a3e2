//! A random access machine: a line-oriented program parser and a single-step
//! execution engine over a unified addressable store with input and output
//! tapes, with the decisions and the screens of an interactive front end.

pub mod parser;
pub mod ram;
pub mod text;
pub mod ui;
