use vstd::prelude::*;

use crate::builtin_commands::{
    result_with_stderr, result_with_stdout, BuiltinAction, BuiltinCommandResult, SpecBuiltinAction,
};
use crate::history::{history_listing, render_history};
use crate::lexer::{all_ascii_digits, digits_value};
use crate::text::{parse_usize, str_eq};

verus! {

/// The `history` builtin's in-process part: listing and option
/// recognition. The file operations behind `-r`, `-w` and `-a` belong to
/// the history store and are handed back as actions.
pub struct HistoryCommand;

/// The second argument, where one was given: the file the `-r`, `-w`
/// and `-a` options act on.
pub open spec fn opt_second(args: Seq<Seq<char>>) -> Option<Seq<char>> {
    if args.len() >= 2 {
        Option::Some(args[1])
    } else {
        Option::None
    }
}

/// A word that names how many entries to list.
pub open spec fn is_history_count(w: Seq<char>) -> bool {
    w.len() > 0 && all_ascii_digits(w) && digits_value(w) <= usize::MAX
}

/// Where the listing of the last `n` of `len` entries starts: `n`
/// entries from the end, or the whole history when `n` exceeds it.
pub open spec fn history_start(n: nat, len: nat) -> int {
    if n > len {
        0
    } else {
        len - n
    }
}

/// What one `history` invocation does, given the arguments and the
/// entries so far: no argument lists everything; `-r`, `-w` and `-a`
/// are handed back as file actions; a count lists the last so-many
/// entries; anything else is an "event not found" error.
pub open spec fn history_action(
    args: Seq<Seq<char>>,
    entries: Seq<Seq<char>>,
) -> SpecBuiltinAction {
    if args.len() == 0 {
        SpecBuiltinAction::Done(result_with_stdout(history_listing(entries, 0)))
    } else if args[0] == "-r"@ {
        SpecBuiltinAction::HistoryLoad(opt_second(args))
    } else if args[0] == "-w"@ {
        SpecBuiltinAction::HistoryWrite(opt_second(args))
    } else if args[0] == "-a"@ {
        SpecBuiltinAction::HistoryAppend(opt_second(args))
    } else if is_history_count(args[0]) {
        SpecBuiltinAction::Done(
            result_with_stdout(
                history_listing(entries, history_start(digits_value(args[0]), entries.len())),
            ),
        )
    } else {
        SpecBuiltinAction::Done(
            result_with_stderr("history: "@ + args[0] + ": event not found\n"@),
        )
    }
}

impl HistoryCommand {
    /// Runs `history` over the entries handed in, exactly as
    /// `history_action` states.
    pub fn execute(params: &Vec<String>, entries: &Vec<String>) -> (r: BuiltinAction)
        ensures
            r@ == history_action(params.deep_view(), entries.deep_view()),
    {
        if params.len() == 0 {
            return BuiltinAction::Done(
                BuiltinCommandResult::new_with_stdout(render_history(entries, 0)),
            );
        }
        let arg = &params[0];
        proof {
            assert(params.deep_view()[0] == params@[0]@);
        }
        if str_eq(arg.as_str(), "-r") {
            return BuiltinAction::HistoryLoad(Self::second(params));
        }
        if str_eq(arg.as_str(), "-w") {
            return BuiltinAction::HistoryWrite(Self::second(params));
        }
        if str_eq(arg.as_str(), "-a") {
            return BuiltinAction::HistoryAppend(Self::second(params));
        }
        match parse_usize(arg.as_str()) {
            Some(n) => {
                let len = entries.len();
                let start: usize = if n > len {
                    0
                } else {
                    len - n
                };
                BuiltinAction::Done(
                    BuiltinCommandResult::new_with_stdout(render_history(entries, start)),
                )
            },
            None => {
                let mut m = String::new();
                m.append("history: ");
                m.append(arg.as_str());
                m.append(": event not found\n");
                proof {
                    assert(m@ =~= "history: "@ + arg@ + ": event not found\n"@);
                }
                BuiltinAction::Done(BuiltinCommandResult::new_with_stderr(m))
            },
        }
    }

    /// The second argument, cloned, where one was given.
    fn second(params: &Vec<String>) -> (r: Option<String>)
        ensures
            r.deep_view() == opt_second(params.deep_view()),
    {
        if params.len() >= 2 {
            proof {
                assert(params.deep_view()[1] == params@[1]@);
            }
            Some(params[1].clone())
        } else {
            None
        }
    }
}

} // verus!
