use minishell::executor::{
    apply_redirections, pipeline_exit_code, plan_pipeline, ExecutionContext, StreamHandle,
};
use minishell::lexer::tokenize_line;
use minishell::parse::{parse_command, Command, CommandType};
use minishell::text::{parse_usize, usize_to_string};

fn simple(line: &str) -> Command {
    let tokens = tokenize_line(line).unwrap();
    match parse_command(&tokens).unwrap() {
        CommandType::Simple(cmd) => cmd,
        other => panic!("expected a simple command, got {:?}", other),
    }
}

fn stages(line: &str) -> Vec<Command> {
    let tokens = tokenize_line(line).unwrap();
    match parse_command(&tokens).unwrap() {
        CommandType::Pipeline(cmds) => cmds,
        other => panic!("expected a pipeline, got {:?}", other),
    }
}

#[test]
fn output_redirections_replace_the_planned_stream() {
    let mut ctx = ExecutionContext::new();
    assert_eq!(ctx.stdout, StreamHandle::Inherited);
    apply_redirections(&simple("cmd > out.txt"), &mut ctx);
    assert_eq!(
        ctx.stdout,
        StreamHandle::WriteFile("out.txt".to_string(), false)
    );
    assert_eq!(ctx.stdin, StreamHandle::Inherited);
    assert_eq!(ctx.stderr, StreamHandle::Inherited);

    let mut ctx = ExecutionContext::new();
    apply_redirections(&simple("cmd >> log.txt"), &mut ctx);
    assert_eq!(
        ctx.stdout,
        StreamHandle::WriteFile("log.txt".to_string(), true)
    );

    let mut ctx = ExecutionContext::new();
    apply_redirections(&simple("cmd < in.txt"), &mut ctx);
    assert_eq!(ctx.stdin, StreamHandle::ReadFile("in.txt".to_string()));
}

#[test]
fn dup_before_file_redirect_is_fully_overridden_on_stdout() {
    // `2>&1 > f`: the dup captures the output stream as it stood; the
    // later file redirection decides descriptor 1 by itself.
    let mut ctx = ExecutionContext::new();
    ctx.stdout = StreamHandle::WriteFile("earlier.txt".to_string(), false);
    apply_redirections(&simple("cmd 2>&1 > f.txt"), &mut ctx);
    assert_eq!(ctx.stdout, StreamHandle::WriteFile("f.txt".to_string(), false));
    assert_eq!(
        ctx.stderr,
        StreamHandle::WriteFile("earlier.txt".to_string(), false)
    );
}

#[test]
fn redirections_on_unmodeled_descriptors_have_no_effect() {
    let mut ctx = ExecutionContext::new();
    apply_redirections(&simple("cmd 3> f.txt"), &mut ctx);
    assert_eq!(ctx.stdin, StreamHandle::Inherited);
    assert_eq!(ctx.stdout, StreamHandle::Inherited);
    assert_eq!(ctx.stderr, StreamHandle::Inherited);
}

#[test]
fn two_stage_pipeline_wires_one_pipe_between_the_stages() {
    let base = ExecutionContext::new();
    let plans = plan_pipeline(&stages("producer | consumer"), &base);
    assert_eq!(plans.len(), 2);
    assert_eq!(plans[0].stdin, StreamHandle::Inherited);
    assert_eq!(plans[0].stdout, StreamHandle::PipeWrite(0));
    assert_eq!(plans[1].stdin, StreamHandle::PipeRead(0));
    assert_eq!(plans[1].stdout, StreamHandle::Inherited);
    assert_eq!(plans[1].stderr, StreamHandle::Inherited);
}

#[test]
fn stage_redirections_apply_on_top_of_the_wiring() {
    let base = ExecutionContext::new();
    let plans = plan_pipeline(&stages("a 2> err.txt | b > out.txt"), &base);
    assert_eq!(plans[0].stdout, StreamHandle::PipeWrite(0));
    assert_eq!(
        plans[0].stderr,
        StreamHandle::WriteFile("err.txt".to_string(), false)
    );
    // The last stage's own redirection overrides its planned output.
    assert_eq!(
        plans[1].stdout,
        StreamHandle::WriteFile("out.txt".to_string(), false)
    );
}

#[test]
fn pipeline_reports_the_last_stage_exit_code_only() {
    assert_eq!(pipeline_exit_code(&vec![17, 0]), 0);
    assert_eq!(pipeline_exit_code(&vec![0, 9]), 9);
    assert_eq!(pipeline_exit_code(&vec![]), 0);
}

#[test]
fn decimal_rendering_and_count_parsing() {
    assert_eq!(usize_to_string(0), "0");
    assert_eq!(usize_to_string(7), "7");
    assert_eq!(usize_to_string(12345), "12345");

    assert_eq!(parse_usize("007"), Some(7));
    assert_eq!(parse_usize("12345"), Some(12345));
    assert_eq!(parse_usize(""), None);
    assert_eq!(parse_usize("abc"), None);
    assert_eq!(parse_usize("+2"), None);
    assert_eq!(parse_usize("18446744073709551616"), None);
}

#[test]
fn history_listing_uses_wide_numbers_past_nine() {
    let entries: Vec<String> = (0..12).map(|i| format!("cmd{}", i)).collect();
    let listing = minishell::history::render_history(&entries, 9);
    assert_eq!(listing, "    10  cmd9\n    11  cmd10\n    12  cmd11\n");
}

#[test]
fn three_stage_pipeline_wires_two_pipes() {
    let base = ExecutionContext::new();
    let plans = plan_pipeline(&stages("a | b | c"), &base);
    assert_eq!(plans.len(), 3);
    assert_eq!(plans[0].stdout, StreamHandle::PipeWrite(0));
    assert_eq!(plans[1].stdin, StreamHandle::PipeRead(0));
    assert_eq!(plans[1].stdout, StreamHandle::PipeWrite(1));
    assert_eq!(plans[2].stdin, StreamHandle::PipeRead(1));
    assert_eq!(plans[2].stdout, StreamHandle::Inherited);
}
