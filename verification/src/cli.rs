//! The options of the program's command line.

use vstd::prelude::*;

verus! {

/// `std::path::PathBuf`, carried through as it is.
#[verifier::external_type_specification]
#[verifier::external_body]
pub struct ExPathBuf(std::path::PathBuf);

/// The options the program is started with.
#[derive(Debug)]
pub struct Cli {
    /// The configuration files: the first is the main one, the others are
    /// merged into it.
    pub config_paths: Vec<std::path::PathBuf>,
    /// Logs at the debug level. Excludes `trace`.
    pub debug: bool,
    /// Logs at the trace level, with backtraces. Excludes `debug`.
    pub trace: bool,
}

} // verus!
