use minishell::quotes::split_quotes;

#[test]
fn test_split_quotes() {
    let line = "echo 'test     script' 'hello''example' shell''world";
    let params = split_quotes(line).get(0).unwrap().content.clone();
    assert_eq!(
        params,
        vec!["echo", "test     script", "helloexample", "shellworld"]
    );

    let line = "echo world     test";
    let params = split_quotes(line).get(0).unwrap().content.clone();
    assert_eq!(params, vec!["echo", "world", "test"]);
}

#[test]
fn split_quotes_output_redirect() {
    let tokens = split_quotes("echo hi > out.txt");
    assert_eq!(tokens.len(), 1);
    assert_eq!(tokens[0].content, vec!["echo", "hi"]);
    assert_eq!(tokens[0].redirect, Some("out.txt".to_string()));
    assert_eq!(tokens[0].redirect_err, None);
    assert!(!tokens[0].append_out);
}

#[test]
fn split_quotes_error_redirect_and_append() {
    let tokens = split_quotes("echo hi 2> err.txt");
    assert_eq!(tokens[0].content, vec!["echo", "hi"]);
    assert_eq!(tokens[0].redirect_err, Some("err.txt".to_string()));
    assert_eq!(tokens[0].redirect, None);

    let tokens = split_quotes("echo a >> log.txt");
    assert_eq!(tokens[0].content, vec!["echo", "a"]);
    assert_eq!(tokens[0].redirect, Some("log.txt".to_string()));
    assert!(tokens[0].append_out);
}

#[test]
fn split_quotes_pipe_segments() {
    let tokens = split_quotes("ls -l | wc");
    assert_eq!(tokens.len(), 2);
    assert_eq!(tokens[0].content, vec!["ls", "-l"]);
    assert_eq!(tokens[1].content, vec!["wc"]);
}
