use vstd::prelude::*;

verus! {

/// The `exit` builtin's in-process part. The flush of the history file
/// and the termination itself are actions of the surrounding process.
pub struct ExitCommand;

impl ExitCommand {
    /// The process's exit status on `exit`: 0, whatever came of the
    /// best-effort history flush before termination.
    pub fn exit_code() -> (c: i32)
        ensures
            c == 0,
    {
        0
    }
}

} // verus!
