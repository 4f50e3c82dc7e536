use vstd::prelude::*;
use vstd::string::StringExecFns;

use crate::{lower_of, lowercase};

verus! {

/// The ways a search can fail: the command line lacked a required argument,
/// the file could not be opened, or a read failed mid-scan.
#[derive(Clone, Copy, Debug, PartialEq, Eq, Structural)]
pub enum GrepError {
    MissingArgument,
    FileNotFound,
    IoError,
}

impl GrepError {
    /// A human-readable description of the failure, fit for printing.
    pub fn message(&self) -> (r: String)
        ensures
            r@ == match *self {
                GrepError::MissingArgument => "please provide the text to look for as the first argument and the file to be searched as the second"@,
                GrepError::FileNotFound => "the file to be searched could not be opened"@,
                GrepError::IoError => "an I/O error interrupted the scan"@,
            },
    {
        match self {
            GrepError::MissingArgument => String::from_str(
                "please provide the text to look for as the first argument and the file to be searched as the second",
            ),
            GrepError::FileNotFound => String::from_str("the file to be searched could not be opened"),
            GrepError::IoError => String::from_str("an I/O error interrupted the scan"),
        }
    }
}

/// A validated search request: the query to look for, the path of the file
/// to scan, and whether matching ignores case. The validator only builds
/// requests whose query and file path are non-empty ([`GrepArgs::wf`]).
/// When `ignore_case` is set it stores the query already lowercased; the
/// file path is stored unmodified.
#[derive(Debug)]
pub struct GrepArgs {
    pub query: String,
    pub file_path: String,
    pub ignore_case: bool,
}

impl GrepArgs {
    /// The invariant the validator establishes: the query and the file path
    /// are both present and non-empty.
    pub open spec fn wf(&self) -> bool {
        self.query@.len() > 0 && self.file_path@.len() > 0
    }

    /// Build a search request from the raw command-line arguments, whose
    /// first element is by convention the program name and is skipped, and
    /// from the case-insensitivity flag the environment supplies. Fails with
    /// `MissingArgument` exactly when the query or the file path is absent
    /// or empty.
    pub fn build(args: &Vec<String>, ignore_case: bool) -> (r: Result<GrepArgs, GrepError>)
        ensures
            (args@.len() < 3 || args@[1]@.len() == 0 || args@[2]@.len() == 0) ==> r == Err::<
                GrepArgs,
                GrepError,
            >(GrepError::MissingArgument),
            (args@.len() >= 3 && args@[1]@.len() > 0 && args@[2]@.len() > 0) ==> (r matches Ok(g)
                && g.query@ == (if ignore_case {
                lower_of(args@[1]@)
            } else {
                args@[1]@
            }) && g.file_path@ == args@[2]@ && g.ignore_case == ignore_case && g.wf()),
    {
        if args.len() < 3 {
            return Err(GrepError::MissingArgument);
        }
        if args[1].as_str().is_empty() || args[2].as_str().is_empty() {
            return Err(GrepError::MissingArgument);
        }
        let query = if ignore_case {
            lowercase(args[1].as_str())
        } else {
            args[1].clone()
        };
        let file_path = args[2].clone();
        Ok(GrepArgs { query, file_path, ignore_case })
    }
}

} // verus!
