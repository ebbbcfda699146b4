//! The machine interface: its data model, its grammar and its parser.

pub mod grammar;
pub mod output_parser;
pub mod output_syntax;
pub mod parser;
pub mod text;
pub mod theorems;
