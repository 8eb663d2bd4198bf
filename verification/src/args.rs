//! The arguments of the command line.

use vstd::prelude::*;

verus! {

/// The two paths that the assembler is called with.
#[derive(Debug, PartialEq, Eq)]
pub struct Args {
    pub input: String,
    pub output: String,
}

/// The command line holds fewer than two paths.
#[derive(Debug, Clone, Copy, PartialEq, Eq)]
pub struct NotEnoughArgs;

impl Args {
    /// The paths in the argument list `args`, whose first entry is the name
    /// of the program: the input is the second entry and the output the
    /// third. What follows them is ignored.
    pub fn from_cmd(args: &Vec<String>) -> (r: Result<Args, NotEnoughArgs>)
        ensures
            match r {
                Ok(a) => args.len() > 2 && a.input@ == args[1]@ && a.output@ == args[2]@,
                Err(_) => args.len() <= 2,
            },
    {
        if args.len() > 2 {
            Ok(Args { input: args[1].clone(), output: args[2].clone() })
        } else {
            Err(NotEnoughArgs)
        }
    }
}

} // verus!
