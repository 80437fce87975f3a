use minishell::builtin_commands::{
    BuiltinAction, BuiltinCommand, BuiltinFactory, CdCommand, EchoCommand, ExitCommand,
    HistoryCommand, PwdCommand, TypeCommand,
};
use minishell::command_handler::{
    BuiltinCommandHandler, CommandHandlerFactory, ExternalCommandHandler, HandlerKind,
};
use minishell::config::ShellConfig;

fn strings(parts: &[&str]) -> Vec<String> {
    parts.iter().map(|s| s.to_string()).collect()
}

fn empty_config() -> ShellConfig {
    ShellConfig {
        search_paths: Vec::new(),
        home_dir: "/home/someone".to_string(),
    }
}

#[test]
fn cd_without_operand_is_an_error_and_asks_no_change() {
    let r = CdCommand::resolve(&strings(&[]), &"/home/someone".to_string());
    match r {
        Err(e) => {
            assert_eq!(e.stderr, b"cd: missing operand\n".to_vec());
            assert_eq!(e.exit_code, 1);
            assert!(e.stdout.is_empty());
        },
        Ok(d) => panic!("cd without operand must not ask for a change to {:?}", d),
    }
}

#[test]
fn cd_with_too_many_arguments_is_an_error() {
    let r = CdCommand::resolve(&strings(&["a", "b"]), &"/home/someone".to_string());
    match r {
        Err(e) => {
            assert_eq!(e.stderr, b"bash: cd: too many arguments\n".to_vec());
            assert_eq!(e.exit_code, 1);
        },
        Ok(d) => panic!("unexpected change to {:?}", d),
    }
}

#[test]
fn cd_to_missing_directory_reports_the_path() {
    let r = CdCommand::resolve(
        &strings(&["nonexistent_dir_xyz"]),
        &"/home/someone".to_string(),
    );
    let dir = r.expect("one operand asks for a directory change");
    assert_eq!(dir, "nonexistent_dir_xyz");
    let report = CdCommand::change_failed(&dir);
    assert_eq!(
        report.stderr,
        b"cd: nonexistent_dir_xyz: No such file or directory\n".to_vec()
    );
    assert_eq!(report.exit_code, 1);
}

#[test]
fn cd_tilde_expands_to_home() {
    let r = CdCommand::resolve(&strings(&["~"]), &"/home/someone".to_string());
    assert_eq!(r.unwrap(), "/home/someone");
}

#[test]
fn type_reports_builtins_and_unknown_names() {
    let config = empty_config();
    let r = TypeCommand::execute(&strings(&["cd"]), &config);
    assert_eq!(r.stdout, b"cd is a shell builtin\n".to_vec());
    assert_eq!(r.exit_code, 0);

    let r = TypeCommand::execute(&strings(&["qqq_no_such_binary"]), &config);
    assert_eq!(r.stderr, b"qqq_no_such_binary: not found\n".to_vec());
    assert_eq!(r.exit_code, 1);
}

#[test]
fn type_report_prints_a_resolved_path() {
    let name = "tool".to_string();
    let r = TypeCommand::report(&name, &Some("/usr/bin/tool".to_string()));
    assert_eq!(r.stdout, b"tool is /usr/bin/tool\n".to_vec());
    assert_eq!(r.exit_code, 0);
}

#[test]
fn echo_joins_arguments_with_single_spaces() {
    let r = EchoCommand::execute(&strings(&["hello", "shell", "world"]));
    assert_eq!(r.stdout, b"hello shell world\n".to_vec());
    assert_eq!(r.exit_code, 0);

    let r = EchoCommand::execute(&strings(&[]));
    assert_eq!(r.stdout, b"\n".to_vec());
}

#[test]
fn pwd_prints_the_directory_or_nothing() {
    let r = PwdCommand::execute(Some("/tmp".to_string()));
    assert_eq!(r.stdout, b"/tmp\n".to_vec());
    assert_eq!(r.exit_code, 0);

    let r = PwdCommand::execute(None);
    assert!(r.stdout.is_empty());
    assert_eq!(r.exit_code, 0);
}

#[test]
fn exit_terminates_with_success() {
    assert_eq!(ExitCommand::exit_code(), 0);
}

#[test]
fn history_lists_numbered_entries() {
    let entries = strings(&["ls", "pwd"]);
    match HistoryCommand::execute(&strings(&[]), &entries) {
        BuiltinAction::Done(r) => {
            assert_eq!(r.stdout, b"    1  ls\n    2  pwd\n".to_vec());
            assert_eq!(r.exit_code, 0);
        },
        other => panic!("expected in-process output, got {:?}", other),
    }
}

#[test]
fn history_count_lists_the_tail_keeping_entry_numbers() {
    let entries = strings(&["ls", "pwd", "echo hi"]);
    match HistoryCommand::execute(&strings(&["2"]), &entries) {
        BuiltinAction::Done(r) => {
            assert_eq!(r.stdout, b"    2  pwd\n    3  echo hi\n".to_vec());
        },
        other => panic!("expected in-process output, got {:?}", other),
    }
    // A count past the end lists everything.
    match HistoryCommand::execute(&strings(&["99"]), &entries) {
        BuiltinAction::Done(r) => {
            assert_eq!(r.stdout, b"    1  ls\n    2  pwd\n    3  echo hi\n".to_vec());
        },
        other => panic!("expected in-process output, got {:?}", other),
    }
}

#[test]
fn history_rejects_a_word_that_is_no_count() {
    let entries = strings(&["ls"]);
    match HistoryCommand::execute(&strings(&["abc"]), &entries) {
        BuiltinAction::Done(r) => {
            assert_eq!(r.stderr, b"history: abc: event not found\n".to_vec());
            assert_eq!(r.exit_code, 1);
        },
        other => panic!("expected in-process error, got {:?}", other),
    }
}

#[test]
fn history_file_options_become_actions() {
    let entries = strings(&[]);
    assert_eq!(
        HistoryCommand::execute(&strings(&["-r", "f"]), &entries),
        BuiltinAction::HistoryLoad(Some("f".to_string()))
    );
    assert_eq!(
        HistoryCommand::execute(&strings(&["-w"]), &entries),
        BuiltinAction::HistoryWrite(None)
    );
    assert_eq!(
        HistoryCommand::execute(&strings(&["-a", "g"]), &entries),
        BuiltinAction::HistoryAppend(Some("g".to_string()))
    );
}

#[test]
fn builtin_names_shadow_external_commands() {
    assert_eq!(
        CommandHandlerFactory::create_handler("echo"),
        HandlerKind::Builtin
    );
    assert_eq!(
        CommandHandlerFactory::create_handler("ls"),
        HandlerKind::External
    );
    assert_eq!(
        BuiltinFactory::create_command("history"),
        Some(BuiltinCommand::History)
    );
    // The match is case-sensitive.
    assert_eq!(BuiltinFactory::create_command("History"), None);
}

#[test]
fn builtin_handler_dispatches_and_reports_unknown_names() {
    let config = empty_config();
    let r = BuiltinCommandHandler::execute(
        "echo",
        &strings(&["hi"]),
        &config,
        None,
        &strings(&[]),
    );
    match r {
        BuiltinAction::Done(res) => assert_eq!(res.stdout, b"hi\n".to_vec()),
        other => panic!("expected in-process output, got {:?}", other),
    }

    let r = BuiltinCommandHandler::execute(
        "cd",
        &strings(&["~"]),
        &config,
        None,
        &strings(&[]),
    );
    assert_eq!(r, BuiltinAction::ChangeDir("/home/someone".to_string()));

    let r =
        BuiltinCommandHandler::execute("exit", &strings(&[]), &config, None, &strings(&[]));
    assert_eq!(r, BuiltinAction::Exit);

    let r =
        BuiltinCommandHandler::execute("nope", &strings(&[]), &config, None, &strings(&[]));
    match r {
        BuiltinAction::Done(res) => {
            assert_eq!(res.stderr, b"nope: command not found\n".to_vec());
            assert_eq!(res.exit_code, 1);
        },
        other => panic!("expected in-process error, got {:?}", other),
    }
}

#[test]
fn external_resolution_fails_on_an_empty_search_path() {
    let config = empty_config();
    match ExternalCommandHandler::resolve("sometool", &config) {
        Err(e) => {
            assert_eq!(e.stderr, b"sometool: command not found\n".to_vec());
            assert_eq!(e.exit_code, 1);
        },
        Ok(p) => panic!("nothing can resolve on an empty path, got {:?}", p),
    }
    let r = ExternalCommandHandler::spawn_failed("sometool");
    assert_eq!(r.stderr, b"sometool: failed to execute\n".to_vec());
}
