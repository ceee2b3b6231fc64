//! The configuration surface the command line hands to the library: plain
//! values only. Argument parsing itself lives with the caller.

use vstd::prelude::*;

verus! {

/// Command-line configuration: the files to lint, whether to echo every
/// record, whether to enable every registry check, and the explicitly
/// enabled check keys (meaningful only when `check_all` is off).
pub struct Cli {
    pub files: Vec<String>,
    pub show_all: bool,
    pub check_all: bool,
    pub checks: Vec<String>,
}

impl Default for Cli {
    /// No files, no echo, no checks enabled.
    fn default() -> (r: Cli)
        ensures
            r.files@.len() == 0,
            !r.show_all,
            !r.check_all,
            r.checks@.len() == 0,
    {
        Cli { files: Vec::new(), show_all: false, check_all: false, checks: Vec::new() }
    }
}

} // verus!
