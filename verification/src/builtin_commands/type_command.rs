use vstd::prelude::*;

use crate::builtin_commands::{
    builtin_of_name, result_with_stderr, result_with_stdout, BuiltinCommandResult, BuiltinFactory,
    SpecBuiltinResult,
};
use crate::config::ShellConfig;
use crate::utils::{find_executable_file_in_paths, joined_path};

verus! {

/// The `type` builtin.
pub struct TypeCommand;

/// The report `type` owes for a name once resolution is known: builtin
/// identifiers report themselves as builtins; otherwise a path resolved
/// on the search path is printed, and a name resolved nowhere is an
/// error.
pub open spec fn is_type_report(
    res: SpecBuiltinResult,
    name: Seq<char>,
    search_paths: Seq<Seq<char>>,
) -> bool {
    if builtin_of_name(name) is Some {
        res == result_with_stdout(name + " is a shell builtin\n"@)
    } else {
        (exists|k: int|
            0 <= k < search_paths.len() && res == result_with_stdout(
                name + " is "@ + joined_path(#[trigger] search_paths[k], name) + "\n"@,
            )) || res == result_with_stderr(name + ": not found\n"@)
    }
}

impl TypeCommand {
    /// The report for `type <name>` once resolution is known.
    pub fn report(name: &String, resolved: &Option<String>) -> (r: BuiltinCommandResult)
        ensures
            builtin_of_name(name@) is Some ==> r@ == result_with_stdout(
                name@ + " is a shell builtin\n"@,
            ),
            resolved matches Some(p) ==> (builtin_of_name(name@) is None ==> r@
                == result_with_stdout(name@ + " is "@ + p@ + "\n"@)),
            builtin_of_name(name@) is None && resolved is None ==> r@ == result_with_stderr(
                name@ + ": not found\n"@,
            ),
    {
        match BuiltinFactory::create_command(name.as_str()) {
            Some(_) => {
                let mut m = String::new();
                m.append(name.as_str());
                m.append(" is a shell builtin\n");
                proof {
                    assert(m@ =~= name@ + " is a shell builtin\n"@);
                }
                BuiltinCommandResult::new_with_stdout(m)
            },
            None => {
                match resolved {
                    Some(p) => {
                        let mut m = String::new();
                        m.append(name.as_str());
                        m.append(" is ");
                        m.append(p.as_str());
                        m.append("\n");
                        proof {
                            assert(m@ =~= name@ + " is "@ + p@ + "\n"@);
                        }
                        BuiltinCommandResult::new_with_stdout(m)
                    },
                    None => {
                        let mut m = String::new();
                        m.append(name.as_str());
                        m.append(": not found\n");
                        proof {
                            assert(m@ =~= name@ + ": not found\n"@);
                        }
                        BuiltinCommandResult::new_with_stderr(m)
                    },
                }
            },
        }
    }

    /// Runs `type`: a builtin identifier reports itself, any other name
    /// is resolved against the search path and its path or "not found"
    /// reported. With no argument at all the invocation is an error.
    pub fn execute(params: &Vec<String>, config: &ShellConfig) -> (r: BuiltinCommandResult)
        ensures
            params@.len() == 0 ==> r@ == result_with_stderr("type command is empty"@),
            params@.len() > 0 ==> is_type_report(
                r@,
                params.deep_view()[0],
                config.search_paths.deep_view(),
            ),
            params@.len() > 0 && builtin_of_name(params.deep_view()[0]) is Some ==> r@
                == result_with_stdout(params.deep_view()[0] + " is a shell builtin\n"@),
            params@.len() > 0 && builtin_of_name(params.deep_view()[0]) is None
                && config.search_paths@.len() == 0 ==> r@ == result_with_stderr(
                params.deep_view()[0] + ": not found\n"@,
            ),
    {
        if params.len() == 0 {
            return BuiltinCommandResult::new_with_stderr("type command is empty".to_owned());
        }
        let name = &params[0];
        let resolved = find_executable_file_in_paths(name.as_str(), &config.search_paths);
        let r = TypeCommand::report(name, &resolved);
        proof {
            if builtin_of_name(name@) is None {
                if resolved is Some {
                    let k = choose|k: int|
                        0 <= k < config.search_paths@.len() && resolved->0@ == joined_path(
                            #[trigger] config.search_paths@[k]@,
                            name@,
                        );
                    assert(config.search_paths.deep_view()[k] == config.search_paths@[k]@);
                    assert(r@ == result_with_stdout(
                        name@ + " is "@ + joined_path(config.search_paths.deep_view()[k], name@)
                            + "\n"@,
                    ));
                }
            }
            assert(params.deep_view()[0] == params@[0]@);
        }
        r
    }
}

} // verus!
