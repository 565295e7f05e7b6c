//! The command-line surface: the grammar of commands and flags, parsed and
//! verified; process arguments and exiting are the binary's business.
pub mod args;

pub use args::{Cli, CliError, Commands};
