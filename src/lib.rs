//! Syntax front end of a small expression-oriented scripting language: turns
//! a finished token stream into a program tree, or the first parse error.
//! Every parse function is proved to agree with the grammar in `grammar`.

pub mod code_types;
pub mod grammar;
pub mod laws;
pub mod parse;
pub mod token;
