//! Front end of an assembler for a RAM machine: turns line-oriented source
//! text into typed statements, or into per-line errors.
pub mod error;
pub mod grammar;
pub mod laws;
pub mod parser;
pub mod stmt;
pub mod text;
