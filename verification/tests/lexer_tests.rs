use minishell::lexer::{tokenize_line, LexError, RawToken, RedirectOp};

fn word(s: &str) -> RawToken {
    RawToken::Word(s.to_string())
}

#[test]
fn fragments_concatenate_without_separator() {
    let tokens = tokenize_line("echo 'test     script' 'hello''example' shell''world").unwrap();
    assert_eq!(
        tokens,
        vec![
            word("echo"),
            word("test     script"),
            word("helloexample"),
            word("shellworld"),
        ]
    );
}

#[test]
fn whitespace_runs_collapse_to_single_separators() {
    let tokens = tokenize_line("echo world     test").unwrap();
    assert_eq!(tokens, vec![word("echo"), word("world"), word("test")]);
}

#[test]
fn pipe_and_redirect_operators() {
    let tokens = tokenize_line("cat in.txt | wc -c").unwrap();
    assert_eq!(
        tokens,
        vec![
            word("cat"),
            word("in.txt"),
            RawToken::Pipe,
            word("wc"),
            word("-c"),
        ]
    );

    let tokens = tokenize_line("echo hi 2>err.txt").unwrap();
    assert_eq!(
        tokens,
        vec![
            word("echo"),
            word("hi"),
            RawToken::IoNumber(2),
            RawToken::Redirect(RedirectOp::Out),
            word("err.txt"),
        ]
    );
}

#[test]
fn all_redirect_operator_shapes() {
    let tokens = tokenize_line("a>b a>>b a>&2 c<b c<<b c<&0").unwrap();
    assert_eq!(
        tokens,
        vec![
            word("a"),
            RawToken::Redirect(RedirectOp::Out),
            word("b"),
            word("a"),
            RawToken::Redirect(RedirectOp::OutAppend),
            word("b"),
            word("a"),
            RawToken::Redirect(RedirectOp::DupOut),
            word("2"),
            word("c"),
            RawToken::Redirect(RedirectOp::In),
            word("b"),
            word("c"),
            RawToken::Redirect(RedirectOp::Heredoc),
            word("b"),
            word("c"),
            RawToken::Redirect(RedirectOp::DupIn),
            word("0"),
        ]
    );
}

#[test]
fn io_number_needs_adjacency_and_range() {
    // A digits-only word directly before the operator is an io-number.
    let tokens = tokenize_line("007>f").unwrap();
    assert_eq!(
        tokens,
        vec![
            RawToken::IoNumber(7),
            RawToken::Redirect(RedirectOp::Out),
            word("f"),
        ]
    );
    // Separated by a space it stays a word.
    let tokens = tokenize_line("2 >f").unwrap();
    assert_eq!(
        tokens,
        vec![word("2"), RawToken::Redirect(RedirectOp::Out), word("f")]
    );
    // Too large for a descriptor, it stays a word.
    let tokens = tokenize_line("256>f").unwrap();
    assert_eq!(
        tokens,
        vec![word("256"), RawToken::Redirect(RedirectOp::Out), word("f")]
    );
}

#[test]
fn double_quote_escapes() {
    // Inside double quotes only \" \\ $ ` lose their backslash.
    let tokens = tokenize_line("echo \"a\\\"b\\nc\"").unwrap();
    assert_eq!(tokens, vec![word("echo"), word("a\"b\\nc")]);
}

#[test]
fn unterminated_quotes_are_errors() {
    assert_eq!(
        tokenize_line("echo 'abc"),
        Err(LexError::UnterminatedSingleQuote)
    );
    assert_eq!(
        tokenize_line("echo \"abc"),
        Err(LexError::UnterminatedDoubleQuote)
    );
    assert_eq!(tokenize_line("echo abc\\"), Err(LexError::TrailingEscape));
}

#[test]
fn empty_and_blank_lines_yield_no_tokens() {
    assert_eq!(tokenize_line("").unwrap(), Vec::<RawToken>::new());
    assert_eq!(tokenize_line("   \t  ").unwrap(), Vec::<RawToken>::new());
}
