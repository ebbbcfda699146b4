//! A parser for the machine interface of a debugger: the text it prints, the
//! records that the text holds, and what the records say of breakpoints,
//! frames and expressions.

pub mod columns;
pub mod expressions;
pub mod gdb;
pub mod mi;
pub mod numbers;
pub mod parsers;
pub mod render;
pub mod rows;
pub mod types;
