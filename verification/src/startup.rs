//! What is settled before any work starts: the two roots, and the ways in
//! which a run can fail as a whole.

use vstd::prelude::*;
use vstd::string::StringExecFns;

verus! {

/// The input and output roots of a run.
#[derive(Debug, PartialEq, Eq)]
pub struct Roots {
    /// The directory whose images are converted.
    pub input_root: String,
    /// The directory below which the converted images go.
    pub output_root: String,
}

/// A failure that ends the run before any work starts.
#[derive(Debug, PartialEq, Eq)]
pub enum StartupError {
    /// An argument is missing.
    Usage,
    /// The input root, here with its path, is not an existing directory.
    InvalidInputRoot(String),
}

impl Clone for Roots {
    fn clone(&self) -> (copy: Roots)
        ensures
            copy == *self,
    {
        Roots { input_root: self.input_root.clone(), output_root: self.output_root.clone() }
    }
}

impl Clone for StartupError {
    fn clone(&self) -> (copy: StartupError)
        ensures
            copy == *self,
    {
        match self {
            StartupError::Usage => StartupError::Usage,
            StartupError::InvalidInputRoot(path) => StartupError::InvalidInputRoot(path.clone()),
        }
    }
}

/// The exit code of a run that completed.
pub const EXIT_SUCCESS: u8 = 0;

/// The exit code of a run that failed before any work started.
pub const EXIT_FAILURE: u8 = 1;

/// The line that a startup failure puts on standard error.
pub open spec fn diagnostic_of(error: StartupError) -> Seq<char> {
    match error {
        StartupError::Usage => "Usage: image-parse <input_dir> <output_dir>"@,
        StartupError::InvalidInputRoot(path) => "Input path is not a directory: "@ + path@,
    }
}

/// Reads the roots off the arguments that follow the program's name: the
/// first is the input root, the second the output root, and any further
/// argument is ignored. Fails with `Usage` exactly where fewer than two
/// arguments were given.
pub fn parse_roots(args: &Vec<String>) -> (parsed: Result<Roots, StartupError>)
    ensures
        match parsed {
            Ok(roots) => args.len() >= 2 && roots.input_root@ == args[0]@ && roots.output_root@
                == args[1]@,
            Err(error) => args.len() < 2 && error == StartupError::Usage,
        },
{
    if args.len() < 2 {
        return Err(StartupError::Usage);
    }
    Ok(Roots { input_root: args[0].clone(), output_root: args[1].clone() })
}

/// Admits the roots where the input root was found to be a directory, and
/// fails with `InvalidInputRoot`, naming the input root, where it was not.
pub fn check_input_root(roots: Roots, is_directory: bool) -> (checked: Result<Roots, StartupError>)
    ensures
        match checked {
            Ok(admitted) => is_directory && admitted == roots,
            Err(error) => {
                &&& !is_directory
                &&& error matches StartupError::InvalidInputRoot(path)
                &&& path@ == roots.input_root@
            },
        },
{
    if is_directory {
        Ok(roots)
    } else {
        Err(StartupError::InvalidInputRoot(roots.input_root))
    }
}

/// The line to put on standard error for a startup failure.
pub fn diagnostic(error: &StartupError) -> (line: String)
    ensures
        line@ == diagnostic_of(*error),
{
    match error {
        StartupError::Usage => "Usage: image-parse <input_dir> <output_dir>".to_owned(),
        StartupError::InvalidInputRoot(path) => "Input path is not a directory: ".to_owned().concat(
            path.as_str(),
        ),
    }
}

/// The exit code of a run: `EXIT_SUCCESS` once the batch completed, however
/// many of its conversions failed, and `EXIT_FAILURE` after a startup
/// failure.
pub fn exit_code(run: &Result<(), StartupError>) -> (code: u8)
    ensures
        code == if run is Ok {
            EXIT_SUCCESS
        } else {
            EXIT_FAILURE
        },
{
    match run {
        Ok(_) => EXIT_SUCCESS,
        Err(_) => EXIT_FAILURE,
    }
}

} // verus!
