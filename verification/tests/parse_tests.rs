use minishell::lexer::{tokenize_line, RawToken, RedirectOp};
use minishell::parse::{
    parse_command, parse_simple_command, CommandType, ParseError, RedirectTarget,
};

fn tokens_of(line: &str) -> Vec<RawToken> {
    tokenize_line(line).unwrap()
}

#[test]
fn round_trip_words_make_simple_command() {
    let tokens = tokens_of("echo hello world");
    match parse_command(&tokens).unwrap() {
        CommandType::Simple(cmd) => {
            assert_eq!(cmd.argv, vec!["echo", "hello", "world"]);
            assert!(cmd.redirections.is_empty());
        },
        other => panic!("expected a simple command, got {:?}", other),
    }
}

#[test]
fn single_pipe_makes_two_stage_pipeline() {
    let tokens = tokens_of("ls -l | wc");
    match parse_command(&tokens).unwrap() {
        CommandType::Pipeline(cmds) => {
            assert_eq!(cmds.len(), 2);
            assert_eq!(cmds[0].argv, vec!["ls", "-l"]);
            assert_eq!(cmds[1].argv, vec!["wc"]);
        },
        other => panic!("expected a pipeline, got {:?}", other),
    }
}

#[test]
fn redirections_parse_in_order_with_targets() {
    let tokens = tokens_of("cmd 2>&1 > out.txt");
    match parse_command(&tokens).unwrap() {
        CommandType::Simple(cmd) => {
            assert_eq!(cmd.argv, vec!["cmd"]);
            assert_eq!(cmd.redirections.len(), 2);
            assert_eq!(cmd.redirections[0].src_fd, Some(2));
            assert_eq!(cmd.redirections[0].op, RedirectOp::DupOut);
            assert_eq!(cmd.redirections[0].target, RedirectTarget::Fd(1));
            assert_eq!(cmd.redirections[1].src_fd, None);
            assert_eq!(cmd.redirections[1].op, RedirectOp::Out);
            assert_eq!(
                cmd.redirections[1].target,
                RedirectTarget::File("out.txt".to_string())
            );
        },
        other => panic!("expected a simple command, got {:?}", other),
    }
}

#[test]
fn close_target_parses() {
    let tokens = tokens_of("echo >&-");
    match parse_command(&tokens).unwrap() {
        CommandType::Simple(cmd) => {
            assert_eq!(cmd.redirections.len(), 1);
            assert_eq!(cmd.redirections[0].op, RedirectOp::DupOut);
            assert_eq!(cmd.redirections[0].target, RedirectTarget::Close);
        },
        other => panic!("expected a simple command, got {:?}", other),
    }
}

#[test]
fn malformed_command_lines_are_fatal_errors() {
    // A redirection operator with nothing after it.
    let tokens = tokens_of("echo 2>");
    assert_eq!(
        parse_command(&tokens),
        Err(ParseError::MissingRedirectTarget)
    );

    // An io-number not followed by a redirection operator.
    let tokens = vec![RawToken::IoNumber(2), RawToken::Word("x".to_string())];
    assert_eq!(
        parse_simple_command(&tokens),
        Err(ParseError::IoNumberWithoutRedirect)
    );

    // A redirection whose target is not a word.
    let tokens = vec![RawToken::Redirect(RedirectOp::Out), RawToken::Pipe];
    assert_eq!(
        parse_simple_command(&tokens),
        Err(ParseError::InvalidRedirectTarget)
    );

    // A pipe token inside a simple command.
    let tokens = vec![RawToken::Pipe];
    assert_eq!(parse_simple_command(&tokens), Err(ParseError::UnexpectedPipe));
}

#[test]
fn empty_pipe_sides_are_dropped() {
    let tokens = tokens_of("ls |");
    match parse_command(&tokens).unwrap() {
        CommandType::Simple(cmd) => {
            assert_eq!(cmd.argv, vec!["ls"]);
        },
        other => panic!("expected a simple command, got {:?}", other),
    }
}

#[test]
fn no_tokens_parse_to_an_empty_pipeline() {
    match parse_command(&[]).unwrap() {
        CommandType::Pipeline(cmds) => assert!(cmds.is_empty()),
        other => panic!("expected an empty pipeline, got {:?}", other),
    }
}
