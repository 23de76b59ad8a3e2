//! The machine's data types and its execution engine.

pub mod error;
pub mod instruction;
pub mod instruction_op;
pub mod labels;
pub mod laws;
pub mod machine;
pub mod op;
pub mod rel;
pub mod state;
pub mod syntax;
pub mod types;
