use vstd::prelude::*;

use crate::builtin_commands::{result_with_stdout, BuiltinCommandResult};

verus! {

/// The `pwd` builtin.
pub struct PwdCommand;

impl PwdCommand {
    /// Prints the working directory handed in, with a trailing newline.
    /// When the directory could not be queried the output is empty and
    /// the command still succeeds.
    pub fn execute(current_dir: Option<String>) -> (r: BuiltinCommandResult)
        ensures
            current_dir matches Some(d) ==> r@ == result_with_stdout(d@ + "\n"@),
            current_dir is None ==> r@ == result_with_stdout(Seq::empty()),
    {
        match current_dir {
            Some(d) => {
                let mut m = d;
                m.append("\n");
                BuiltinCommandResult::new_with_stdout(m)
            },
            None => BuiltinCommandResult::new_with_stdout(String::new()),
        }
    }
}

} // verus!
