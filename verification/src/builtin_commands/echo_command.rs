use vstd::prelude::*;

use crate::builtin_commands::{result_with_stdout, BuiltinCommandResult};
use crate::text::join_spaced;

verus! {

/// The `echo` builtin.
pub struct EchoCommand;

impl EchoCommand {
    /// Prints the arguments joined by single spaces plus a trailing
    /// newline; never fails.
    pub fn execute(params: &Vec<String>) -> (r: BuiltinCommandResult)
        ensures
            r@ == result_with_stdout(join_spaced(params.deep_view()) + "\n"@),
    {
        let mut m = crate::text::join_with_spaces(params);
        m.append("\n");
        BuiltinCommandResult::new_with_stdout(m)
    }
}

} // verus!
