//! Text as sequences of characters: the operations that the program grammar
//! is stated in.

pub mod convert;
pub mod number;
pub mod search;
pub mod space;
pub mod split;
pub mod words;
