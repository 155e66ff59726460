//! Resolution of flake references and an inventory of system generations.
//!
//! A reference `<directory>[#<attribute.path>]` is parsed, checked against what
//! the filesystem reports about the directory, and completed to the attribute
//! that builds a whole system. Generation links of a profile are decoded into
//! numbered records and collected in a table ordered by number.
//!
//! The library reads no file and starts no program: callers hand it what they
//! observed as plain values.

pub mod cmd;
pub mod paths;
pub mod text;
pub mod utils;

pub mod flake;
pub mod list_generations;
