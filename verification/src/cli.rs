//! The edge towards the command line: what the parsed arguments ask for,
//! and what there is to show of an outcome. Parsing and printing are the
//! caller's work.

pub mod arguments;
pub mod feedback;
