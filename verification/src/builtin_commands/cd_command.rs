use vstd::prelude::*;

use crate::builtin_commands::{result_with_stderr, BuiltinCommandResult};

verus! {

/// The `cd` builtin's in-process part: argument checking and target
/// resolution. The directory change itself is an action of the
/// surrounding process; with no operand, or too many, no change is asked
/// for and the working directory stays as it was.
pub struct CdCommand;

impl CdCommand {
    /// Decides what `cd` does with its arguments: no operand or more
    /// than one is an error and asks for no directory change; a single
    /// operand names the target, with a bare `~` standing for the home
    /// directory.
    pub fn resolve(params: &Vec<String>, home: &String) -> (r: Result<
        String,
        BuiltinCommandResult,
    >)
        ensures
            params@.len() == 0 ==> (r matches Err(e) && e@ == result_with_stderr(
                "cd: missing operand\n"@,
            )),
            params@.len() > 1 ==> (r matches Err(e) && e@ == result_with_stderr(
                "bash: cd: too many arguments\n"@,
            )),
            params@.len() == 1 && params.deep_view()[0] == "~"@ ==> (r matches Ok(d) && d@
                == home@),
            params@.len() == 1 && params.deep_view()[0] != "~"@ ==> (r matches Ok(d) && d@
                == params.deep_view()[0]),
    {
        if params.len() == 0 {
            Err(BuiltinCommandResult::new_with_stderr("cd: missing operand\n".to_owned()))
        } else if params.len() > 1 {
            Err(BuiltinCommandResult::new_with_stderr("bash: cd: too many arguments\n".to_owned()))
        } else {
            let dir = &params[0];
            if crate::text::str_eq(dir.as_str(), "~") {
                Ok(home.clone())
            } else {
                Ok(dir.clone())
            }
        }
    }

    /// The report when the directory change itself failed: the path is
    /// named in the message.
    pub fn change_failed(dir: &String) -> (r: BuiltinCommandResult)
        ensures
            r@ == result_with_stderr("cd: "@ + dir@ + ": No such file or directory\n"@),
    {
        let mut m = String::new();
        m.append("cd: ");
        m.append(dir.as_str());
        m.append(": No such file or directory\n");
        proof {
            assert(m@ =~= "cd: "@ + dir@ + ": No such file or directory\n"@);
        }
        BuiltinCommandResult::new_with_stderr(m)
    }
}

} // verus!
