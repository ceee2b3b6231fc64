//! Building a linter out of external configuration.
//!
//! The builder validates the requested check keys against the registry
//! before any row is read: an unknown key fails configuration immediately,
//! and no linter is produced. The "check everything" flag substitutes every
//! registry key.

use vstd::prelude::*;

use crate::checks::{spec_registry_keys, Check};
use crate::cli::Cli;
use crate::linter::Linter;
use vstd::string::StringExecFns;

verus! {

/// `i` is the position of the first requested key the registry lacks.
pub open spec fn spec_first_unknown(checks: Seq<Seq<char>>, i: int) -> bool {
    &&& 0 <= i < checks.len()
    &&& !spec_registry_keys().contains(checks[i])
    &&& forall|h: int| 0 <= h < i ==> spec_registry_keys().contains(#[trigger] checks[h])
}

/// Configuration for one lint run: the target identifier used in messages,
/// whether to echo every record, and the check keys to enable.
pub struct LinterBuilder {
    pub filename: String,
    pub show_all: bool,
    pub checks: Vec<String>,
}

impl Default for LinterBuilder {
    /// An empty target identifier, no echo, no checks enabled.
    fn default() -> (r: LinterBuilder)
        ensures
            r.filename@.len() == 0,
            !r.show_all,
            r.checks@.len() == 0,
    {
        LinterBuilder { filename: String::new(), show_all: false, checks: Vec::new() }
    }
}

impl LinterBuilder {
    /// Validates the configuration and produces a ready-to-run linter with
    /// empty accumulated state.
    ///
    /// Succeeds exactly when every requested key names a registry check; the
    /// first unknown key fails configuration with a message naming it, before
    /// any row is read.
    #[verifier::loop_isolation(false)]
    pub fn build(self) -> (r: Result<Linter, String>)
        ensures
            (r is Ok <==> forall|i: int|
                0 <= i < self.checks.deep_view().len() ==> spec_registry_keys().contains(
                    #[trigger] self.checks.deep_view()[i],
                )),
            r matches Ok(l) ==> {
                &&& l.filename == self.filename
                &&& l.show_all == self.show_all
                &&& l.delimiter is None
                &&& l.escape is None
                &&& l.checks == self.checks
                &&& l.errors@.len() == 0
                &&& l.headers@.len() == 0
                &&& l.header_checks@.len() == 0
            },
            r matches Err(m) ==> exists|i: int|
                #[trigger] spec_first_unknown(self.checks.deep_view(), i) && m@ == "Unknown check: "@
                    + self.checks.deep_view()[i],
    {
        let ghost requested = self.checks.deep_view();
        let mut i: usize = 0;
        while i < self.checks.len()
            invariant
                0 <= i <= self.checks@.len(),
                forall|h: int|
                    0 <= h < i ==> spec_registry_keys().contains(#[trigger] requested[h]),
            decreases self.checks@.len() - i,
        {
            match Check::get_key(self.checks[i].as_str()) {
                Some(_) => {},
                None => {
                    let mut message = "Unknown check: ".to_owned();
                    message.append(self.checks[i].as_str());
                    proof {
                        assert(message@ =~= "Unknown check: "@ + requested[i as int]);
                        assert(spec_first_unknown(requested, i as int));
                    }
                    return Err(message);
                },
            }
            i = i + 1;
        }
        Ok(
            Linter {
                filename: self.filename,
                show_all: self.show_all,
                delimiter: None,
                escape: None,
                checks: self.checks,
                errors: Vec::new(),
                headers: Vec::new(),
                header_checks: Vec::new(),
            },
        )
    }

    /// Sets whether every record is echoed, returning the builder.
    pub fn show_all(self, show_all: bool) -> (r: LinterBuilder)
        ensures
            r.filename == self.filename,
            r.show_all == show_all,
            r.checks == self.checks,
    {
        let mut r = self;
        r.show_all = show_all;
        r
    }

    /// Builds configuration from the command line for one target file:
    /// either every registry key, or exactly the explicitly requested keys.
    #[verifier::loop_isolation(false)]
    pub fn from_cli(cli: &Cli, filename: String) -> (r: LinterBuilder)
        ensures
            r.filename == filename,
            r.show_all == cli.show_all,
            cli.check_all ==> r.checks.deep_view() == spec_registry_keys(),
            !cli.check_all ==> r.checks@ == cli.checks@,
    {
        let checks: Vec<String> = if cli.check_all {
            let keys = Check::list_keys();
            let mut all_keys: Vec<String> = Vec::new();
            let mut i: usize = 0;
            while i < keys.len()
                invariant
                    0 <= i <= keys@.len(),
                    all_keys.deep_view() =~= keys.deep_view().take(i as int),
                decreases keys@.len() - i,
            {
                all_keys.push(keys[i].to_owned());
                proof {
                    assert(all_keys.deep_view() =~= keys.deep_view().take(i + 1));
                }
                i = i + 1;
            }
            proof {
                assert(keys.deep_view().take(keys@.len() as int) =~= keys.deep_view());
                assert(all_keys.deep_view() =~= spec_registry_keys());
            }
            all_keys
        } else {
            let copied = cli.checks.clone();
            proof {
                assert forall|i: int| 0 <= i < cli.checks@.len() implies copied@[i]
                    == cli.checks@[i] by {
                    assert(cloned::<String>(cli.checks[i], copied[i]));
                }
                assert(copied@ =~= cli.checks@);
            }
            copied
        };
        LinterBuilder { filename, show_all: cli.show_all, checks }
    }
}

} // verus!
