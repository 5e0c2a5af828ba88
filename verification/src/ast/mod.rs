pub mod list;
pub mod expr;
pub mod stmt;
pub mod grammar;
pub mod parser;
pub mod progress;
pub mod numbering;
