//! The program's command line.
use vstd::prelude::*;

verus! {

/// The configuration file read when none is given.
pub const DEFAULT_CONFIG: &'static str = "tinybot.toml";

/// The command line: the configuration file to read.
pub struct Args {
    pub config: String,
}

} // verus!
