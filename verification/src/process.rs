//! External commands, described as plain values for the caller to run.

use vstd::prelude::*;

verus! {

/// A command line: the program, its arguments, and the working directory
/// it runs in (the caller's own when `None`).
pub struct ProcessCommand {
    pub program: String,
    pub args: Vec<String>,
    pub current_dir: Option<String>,
}

/// The character sequences of a list of strings.
pub open spec fn strings_view(v: Seq<String>) -> Seq<Seq<char>> {
    v.map_values(|s: String| s@)
}

impl ProcessCommand {
    /// The arguments as character sequences.
    pub open spec fn args_view(&self) -> Seq<Seq<char>> {
        strings_view(self.args@)
    }

    /// The working directory as a character sequence.
    pub open spec fn dir_view(&self) -> Option<Seq<char>> {
        match self.current_dir {
            Some(d) => Some(d@),
            None => None,
        }
    }
}

} // verus!
