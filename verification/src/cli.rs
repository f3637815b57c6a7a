//! The command line: one argument, the size; and what the process reports
//! and returns when a run cannot go on.

use vstd::prelude::*;
use vstd::string::StringExecFns;
use crate::controller::AllocationFailure;
use crate::size::{parse_size, parse_size_with_unit, ParseError};

verus! {

/// The exit status of a run that claimed, held and released its memory.
pub const EXIT_SUCCESS: i32 = 0;

/// The exit status of a run that stopped on a failure.
pub const EXIT_FAILURE: i32 = 1;

/// Why a run stopped early.
#[derive(Clone, Copy, Debug, PartialEq, Eq)]
pub enum Failure {
    /// The command line does not hold exactly one argument.
    Usage,
    /// The argument is not a size.
    Parse(ParseError),
    /// A chunk could not be claimed.
    Allocation(AllocationFailure),
}

/// The usage line for a program called `program`.
pub open spec fn usage_text(program: Seq<char>) -> Seq<char> {
    "Usage: "@ + program + " <size_with_unit>"@
}

/// What the command line `args` asks for. The first entry is the program's
/// own name; exactly one more must follow, and it is read as a size. With
/// any other number of entries the size is not looked at.
pub open spec fn requested_bytes_of(args: Seq<Seq<char>>) -> Result<usize, Failure> {
    if args.len() != 2 {
        Err(Failure::Usage)
    } else {
        match parse_size(args[1]) {
            Ok(bytes) => Ok(bytes),
            Err(e) => Err(Failure::Parse(e)),
        }
    }
}

/// The command line as sequences of characters.
pub open spec fn args_view(args: Seq<String>) -> Seq<Seq<char>> {
    Seq::new(args.len(), |i: int| args[i]@)
}

/// The usage line for a program called `program`.
pub fn usage(program: &str) -> (text: String)
    ensures
        text@ == usage_text(program@),
{
    let mut text = String::from_str("Usage: ");
    text.append(program);
    text.append(" <size_with_unit>");
    text
}

/// Reads the number of bytes to claim off the command line.
pub fn requested_bytes(args: &Vec<String>) -> (request: Result<usize, Failure>)
    ensures
        request == requested_bytes_of(args_view(args@)),
{
    if args.len() != 2 {
        return Err(Failure::Usage);
    }
    match parse_size_with_unit(args[1].as_str()) {
        Ok(bytes) => Ok(bytes),
        Err(e) => Err(Failure::Parse(e)),
    }
}

impl Failure {
    /// The line written to standard error for this failure.
    pub open spec fn spec_message(self, program: Seq<char>) -> Seq<char> {
        match self {
            Failure::Usage => usage_text(program),
            Failure::Parse(e) => e.spec_message(),
            Failure::Allocation(_) => "Failed to allocate memory"@,
        }
    }

    /// The line written to standard error for this failure; `program` is
    /// the name the usage line shows.
    pub fn message(&self, program: &str) -> (text: String)
        ensures
            text@ == self.spec_message(program@),
    {
        match self {
            Failure::Usage => usage(program),
            Failure::Parse(e) => String::from_str(e.message()),
            Failure::Allocation(failure) => String::from_str(failure.message()),
        }
    }

    /// The exit status of a run that stopped on this failure.
    pub fn exit_code(&self) -> (code: i32)
        ensures
            code == EXIT_FAILURE,
    {
        EXIT_FAILURE
    }
}

} // verus!
