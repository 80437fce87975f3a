use vstd::prelude::*;

use crate::builtin_commands::history_command::history_action;
use crate::builtin_commands::type_command::is_type_report;
use crate::builtin_commands::{
    builtin_of_name, result_with_stderr, result_with_stdout, BuiltinAction, BuiltinCommand,
    BuiltinCommandResult, BuiltinFactory, CdCommand, EchoCommand, HistoryCommand, PwdCommand,
    SpecBuiltinAction, TypeCommand,
};
use crate::config::ShellConfig;
use crate::text::join_spaced;
use crate::utils::{find_executable_file_in_paths, joined_path};

verus! {

/// Which handler a command name dispatches to.
#[derive(Debug, Clone, Copy, PartialEq, Eq, Structural)]
pub enum HandlerKind {
    Builtin,
    External,
}

/// Chooses between the in-process builtin handler and the external
/// process handler, once per command name.
pub struct CommandHandlerFactory;

impl CommandHandlerFactory {
    /// A command name that exactly matches a builtin identifier always
    /// dispatches to the builtin handler; this shadows any external
    /// executable of the same name.
    pub fn create_handler(command: &str) -> (h: HandlerKind)
        ensures
            h == HandlerKind::Builtin <==> builtin_of_name(command@) is Some,
    {
        match BuiltinFactory::create_command(command) {
            Some(_) => HandlerKind::Builtin,
            None => HandlerKind::External,
        }
    }
}

/// What `cd` asks of the surrounding process, given its arguments and
/// the home directory: an error report, or the one directory change.
pub open spec fn cd_action(args: Seq<Seq<char>>, home: Seq<char>) -> SpecBuiltinAction {
    if args.len() == 0 {
        SpecBuiltinAction::Done(result_with_stderr("cd: missing operand\n"@))
    } else if args.len() > 1 {
        SpecBuiltinAction::Done(result_with_stderr("bash: cd: too many arguments\n"@))
    } else if args[0] == "~"@ {
        SpecBuiltinAction::ChangeDir(home)
    } else {
        SpecBuiltinAction::ChangeDir(args[0])
    }
}

/// What `pwd` prints, given the working directory as last queried: the
/// directory and a newline, or nothing when the query failed; either way
/// the command succeeds.
pub open spec fn pwd_action(current_dir: Option<Seq<char>>) -> SpecBuiltinAction {
    match current_dir {
        Option::Some(d) => SpecBuiltinAction::Done(result_with_stdout(d + "\n"@)),
        Option::None => SpecBuiltinAction::Done(result_with_stdout(Seq::empty())),
    }
}

/// Runs builtins in-process.
pub struct BuiltinCommandHandler;

impl BuiltinCommandHandler {
    /// Runs the builtin that `command` names, over plain inputs: the
    /// process-wide configuration, the working directory as last
    /// queried, and the history entries. Returns what the builtin
    /// produced, or the one action only the surrounding process can
    /// take.
    pub fn execute(
        command: &str,
        args: &Vec<String>,
        config: &ShellConfig,
        current_dir: Option<String>,
        history_entries: &Vec<String>,
    ) -> (r: BuiltinAction)
        ensures
            builtin_of_name(command@) is None ==> r@ == SpecBuiltinAction::Done(
                result_with_stderr(command@ + ": command not found\n"@),
            ),
            builtin_of_name(command@) == Some(BuiltinCommand::Exit) ==> r@
                == SpecBuiltinAction::Exit,
            builtin_of_name(command@) == Some(BuiltinCommand::Echo) ==> r@
                == SpecBuiltinAction::Done(
                result_with_stdout(join_spaced(args.deep_view()) + "\n"@),
            ),
            builtin_of_name(command@) == Some(BuiltinCommand::Pwd) ==> r@ == pwd_action(
                current_dir.deep_view(),
            ),
            builtin_of_name(command@) == Some(BuiltinCommand::Cd) ==> r@ == cd_action(
                args.deep_view(),
                config.home_dir@,
            ),
            builtin_of_name(command@) == Some(BuiltinCommand::History) ==> r@ == history_action(
                args.deep_view(),
                history_entries.deep_view(),
            ),
            builtin_of_name(command@) == Some(BuiltinCommand::Type) && args@.len() == 0 ==> r@
                == SpecBuiltinAction::Done(result_with_stderr("type command is empty"@)),
            builtin_of_name(command@) == Some(BuiltinCommand::Type) && args@.len() > 0 ==> (
            r@ matches SpecBuiltinAction::Done(res) && is_type_report(
                res,
                args.deep_view()[0],
                config.search_paths.deep_view(),
            )),
    {
        match BuiltinFactory::create_command(command) {
            None => {
                let mut m = String::new();
                m.append(command);
                m.append(": command not found\n");
                proof {
                    assert(m@ =~= command@ + ": command not found\n"@);
                }
                BuiltinAction::Done(BuiltinCommandResult::new_with_stderr(m))
            },
            Some(BuiltinCommand::Exit) => BuiltinAction::Exit,
            Some(BuiltinCommand::Echo) => BuiltinAction::Done(EchoCommand::execute(args)),
            Some(BuiltinCommand::Pwd) => BuiltinAction::Done(PwdCommand::execute(current_dir)),
            Some(BuiltinCommand::Cd) => {
                match CdCommand::resolve(args, &config.home_dir) {
                    Ok(d) => BuiltinAction::ChangeDir(d),
                    Err(e) => BuiltinAction::Done(e),
                }
            },
            Some(BuiltinCommand::Type) => BuiltinAction::Done(TypeCommand::execute(args, config)),
            Some(BuiltinCommand::History) => HistoryCommand::execute(args, history_entries),
        }
    }
}

/// Prepares external commands: resolves the name on the search path.
/// The spawn itself, with the planned stream wiring, is the surrounding
/// process's to perform.
pub struct ExternalCommandHandler;

impl ExternalCommandHandler {
    /// Resolves the command name against the search path directories,
    /// first match in path-list order: the program to spawn, or the
    /// "command not found" report with exit code 1.
    pub fn resolve(command: &str, config: &ShellConfig) -> (r: Result<
        String,
        BuiltinCommandResult,
    >)
        ensures
            r matches Ok(p) ==> exists|k: int|
                0 <= k < config.search_paths@.len() && p@ == joined_path(
                    #[trigger] config.search_paths@[k]@,
                    command@,
                ),
            r matches Err(e) ==> e@ == result_with_stderr(command@ + ": command not found\n"@),
            config.search_paths@.len() == 0 ==> r is Err,
    {
        match find_executable_file_in_paths(command, &config.search_paths) {
            Some(p) => Ok(p),
            None => {
                let mut m = String::new();
                m.append(command);
                m.append(": command not found\n");
                proof {
                    assert(m@ =~= command@ + ": command not found\n"@);
                }
                Err(BuiltinCommandResult::new_with_stderr(m))
            },
        }
    }

    /// The report when the resolved program could not be spawned.
    pub fn spawn_failed(command: &str) -> (r: BuiltinCommandResult)
        ensures
            r@ == result_with_stderr(command@ + ": failed to execute\n"@),
    {
        let mut m = String::new();
        m.append(command);
        m.append(": failed to execute\n");
        proof {
            assert(m@ =~= command@ + ": failed to execute\n"@);
        }
        BuiltinCommandResult::new_with_stderr(m)
    }
}

} // verus!
