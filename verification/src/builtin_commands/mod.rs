use vstd::prelude::*;

pub mod cd_command;
pub mod echo_command;
pub mod exit_command;
pub mod history_command;
pub mod pwd_command;
pub mod type_command;

pub use cd_command::CdCommand;
pub use echo_command::EchoCommand;
pub use exit_command::ExitCommand;
pub use history_command::HistoryCommand;
pub use pwd_command::PwdCommand;
pub use type_command::TypeCommand;

use vstd::utf8::encode_utf8;

verus! {

/// The fixed set of commands the shell runs in-process. A command name
/// that exactly matches one of these identifiers always uses the builtin,
/// shadowing any external executable of the same name.
#[derive(Debug, Clone, Copy, PartialEq, Eq, Structural)]
pub enum BuiltinCommand {
    Exit,
    Pwd,
    Cd,
    Echo,
    Type,
    History,
}

/// Which builtin a command name denotes: an exact, case-sensitive match
/// against the builtin identifiers, or none.
pub open spec fn builtin_of_name(name: Seq<char>) -> Option<BuiltinCommand> {
    if name == "exit"@ {
        Option::Some(BuiltinCommand::Exit)
    } else if name == "pwd"@ {
        Option::Some(BuiltinCommand::Pwd)
    } else if name == "cd"@ {
        Option::Some(BuiltinCommand::Cd)
    } else if name == "echo"@ {
        Option::Some(BuiltinCommand::Echo)
    } else if name == "type"@ {
        Option::Some(BuiltinCommand::Type)
    } else if name == "history"@ {
        Option::Some(BuiltinCommand::History)
    } else {
        Option::None
    }
}

/// What one builtin invocation produced in-process: output and error
/// bytes, and an exit code, 0 for success.
#[derive(Debug, Clone, PartialEq)]
pub struct BuiltinCommandResult {
    pub stdout: Vec<u8>,
    pub stderr: Vec<u8>,
    pub exit_code: i32,
}

/// Mathematical counterpart of `BuiltinCommandResult`.
#[verifier::ext_equal]
pub struct SpecBuiltinResult {
    pub stdout: Seq<u8>,
    pub stderr: Seq<u8>,
    pub exit_code: i32,
}

impl View for BuiltinCommandResult {
    type V = SpecBuiltinResult;

    open spec fn view(&self) -> SpecBuiltinResult {
        SpecBuiltinResult { stdout: self.stdout@, stderr: self.stderr@, exit_code: self.exit_code }
    }
}

impl DeepView for BuiltinCommandResult {
    type V = SpecBuiltinResult;

    open spec fn deep_view(&self) -> SpecBuiltinResult {
        self.view()
    }
}

/// A successful result that carries the message on standard output.
pub open spec fn result_with_stdout(msg: Seq<char>) -> SpecBuiltinResult {
    SpecBuiltinResult { stdout: encode_utf8(msg), stderr: Seq::empty(), exit_code: 0 }
}

/// A failed result that carries the message on standard error.
pub open spec fn result_with_stderr(msg: Seq<char>) -> SpecBuiltinResult {
    SpecBuiltinResult { stdout: Seq::empty(), stderr: encode_utf8(msg), exit_code: 1 }
}

/// A silent success.
pub open spec fn result_success() -> SpecBuiltinResult {
    SpecBuiltinResult { stdout: Seq::empty(), stderr: Seq::empty(), exit_code: 0 }
}

impl BuiltinCommandResult {
    /// A successful result whose standard output is `stdout`.
    pub fn new_with_stdout(stdout: String) -> (r: Self)
        ensures
            r@ == result_with_stdout(stdout@),
    {
        let r = BuiltinCommandResult {
            stdout: stdout.as_str().as_bytes_vec(),
            stderr: Vec::new(),
            exit_code: 0,
        };
        proof {
            assert(r@ =~= result_with_stdout(stdout@));
        }
        r
    }

    /// A failed result whose standard error is `stderr`.
    pub fn new_with_stderr(stderr: String) -> (r: Self)
        ensures
            r@ == result_with_stderr(stderr@),
    {
        let r = BuiltinCommandResult {
            stdout: Vec::new(),
            stderr: stderr.as_str().as_bytes_vec(),
            exit_code: 1,
        };
        proof {
            assert(r@ =~= result_with_stderr(stderr@));
        }
        r
    }
}

impl Default for BuiltinCommandResult {
    /// A silent success: no output, no error, exit code 0.
    fn default() -> (r: Self)
        ensures
            r@ == result_success(),
    {
        let r = BuiltinCommandResult { stdout: Vec::new(), stderr: Vec::new(), exit_code: 0 };
        proof {
            assert(r@ =~= result_success());
        }
        r
    }
}

/// What a builtin asks of its caller: either it finished in-process with
/// a result, or it names the one action only the surrounding process can
/// take — change the working directory, touch the history file, or
/// terminate the shell.
#[derive(Debug, Clone, PartialEq)]
pub enum BuiltinAction {
    /// Finished in-process with this result.
    Done(BuiltinCommandResult),
    /// Change the working directory to this path; on failure report
    /// through `CdCommand::change_failed`.
    ChangeDir(String),
    /// Load the history from this file (`history -r`).
    HistoryLoad(Option<String>),
    /// Overwrite this file with the whole history (`history -w`).
    HistoryWrite(Option<String>),
    /// Append the entries since the last flush to this file
    /// (`history -a`).
    HistoryAppend(Option<String>),
    /// Flush the history, best-effort, then terminate with code 0.
    Exit,
}

/// Mathematical counterpart of `BuiltinAction`.
#[verifier::ext_equal]
pub enum SpecBuiltinAction {
    Done(SpecBuiltinResult),
    ChangeDir(Seq<char>),
    HistoryLoad(Option<Seq<char>>),
    HistoryWrite(Option<Seq<char>>),
    HistoryAppend(Option<Seq<char>>),
    Exit,
}

impl View for BuiltinAction {
    type V = SpecBuiltinAction;

    open spec fn view(&self) -> SpecBuiltinAction {
        match self {
            BuiltinAction::Done(res) => SpecBuiltinAction::Done(res@),
            BuiltinAction::ChangeDir(d) => SpecBuiltinAction::ChangeDir(d@),
            BuiltinAction::HistoryLoad(f) => SpecBuiltinAction::HistoryLoad(f.deep_view()),
            BuiltinAction::HistoryWrite(f) => SpecBuiltinAction::HistoryWrite(f.deep_view()),
            BuiltinAction::HistoryAppend(f) => SpecBuiltinAction::HistoryAppend(f.deep_view()),
            BuiltinAction::Exit => SpecBuiltinAction::Exit,
        }
    }
}

impl DeepView for BuiltinAction {
    type V = SpecBuiltinAction;

    open spec fn deep_view(&self) -> SpecBuiltinAction {
        self.view()
    }
}

/// Builds builtin command values from names.
pub struct BuiltinFactory;

impl BuiltinFactory {
    /// The builtin a command name denotes, by exact, case-sensitive
    /// match against the fixed identifier set.
    pub fn create_command(command: &str) -> (r: Option<BuiltinCommand>)
        ensures
            r == builtin_of_name(command@),
    {
        if crate::text::str_eq(command, "exit") {
            Some(BuiltinCommand::Exit)
        } else if crate::text::str_eq(command, "pwd") {
            Some(BuiltinCommand::Pwd)
        } else if crate::text::str_eq(command, "cd") {
            Some(BuiltinCommand::Cd)
        } else if crate::text::str_eq(command, "echo") {
            Some(BuiltinCommand::Echo)
        } else if crate::text::str_eq(command, "type") {
            Some(BuiltinCommand::Type)
        } else if crate::text::str_eq(command, "history") {
            Some(BuiltinCommand::History)
        } else {
            None
        }
    }
}

} // verus!
