use cc_toolgate::shell::{decompose, has_output_redirection, parse_with_substitutions};
use cc_toolgate::syntax::{Node, NodeKind, SyntaxNode};
use cc_toolgate::types::Operator;

// ── Compound splitting ──

#[test]
fn simple_command() {
    let (p, subs) = parse_with_substitutions("ls -la");
    assert_eq!(p.segments.len(), 1);
    assert_eq!(p.segments[0].command, "ls -la");
    assert!(p.operators.is_empty());
    assert!(subs.is_empty());
}

#[test]
fn pipe() {
    let (p, _) = parse_with_substitutions("ls | grep foo");
    assert_eq!(p.segments.len(), 2);
    assert_eq!(p.segments[0].command, "ls");
    assert_eq!(p.segments[1].command, "grep foo");
    assert_eq!(p.operators, vec![Operator::Pipe]);
}

#[test]
fn and_then() {
    let (p, _) = parse_with_substitutions("mkdir foo && cd foo");
    assert_eq!(p.segments.len(), 2);
    assert_eq!(p.segments[0].command, "mkdir foo");
    assert_eq!(p.segments[1].command, "cd foo");
    assert_eq!(p.operators, vec![Operator::And]);
}

#[test]
fn or_else() {
    let (p, _) = parse_with_substitutions("test -f x || echo missing");
    assert_eq!(p.segments.len(), 2);
    assert_eq!(p.operators, vec![Operator::Or]);
}

#[test]
fn semicolon() {
    let (p, _) = parse_with_substitutions("echo a; echo b");
    assert_eq!(p.segments.len(), 2);
    assert_eq!(p.segments[0].command, "echo a");
    assert_eq!(p.segments[1].command, "echo b");
}

#[test]
fn triple_and() {
    let (p, _) = parse_with_substitutions("a && b && c");
    assert_eq!(p.segments.len(), 3);
    assert_eq!(p.operators, vec![Operator::And, Operator::And]);
}

#[test]
fn mixed_operators() {
    let (p, _) = parse_with_substitutions("a && b || c");
    assert_eq!(p.segments.len(), 3);
    assert_eq!(p.operators, vec![Operator::And, Operator::Or]);
}

#[test]
fn quoted_operator_not_split() {
    let (p, subs) = parse_with_substitutions(r#"echo "a && b""#);
    assert_eq!(p.segments.len(), 1);
    assert!(subs.is_empty());
}

// ── Substitution extraction ──

#[test]
fn dollar_paren_substitution() {
    let (p, subs) = parse_with_substitutions("echo $(date)");
    assert_eq!(subs, vec!["date"]);
    assert_eq!(p.segments[0].command, "echo __SUBST__");
}

#[test]
fn backtick_substitution() {
    let (p, subs) = parse_with_substitutions("echo `date`");
    assert_eq!(subs, vec!["date"]);
    assert_eq!(p.segments[0].command, "echo __SUBST__");
}

#[test]
fn single_quoted_not_substituted() {
    let (_, subs) = parse_with_substitutions("echo '$(date)'");
    assert!(subs.is_empty());
}

#[test]
fn double_quoted_is_substituted() {
    let (_, subs) = parse_with_substitutions(r#"echo "$(date)""#);
    assert_eq!(subs, vec!["date"]);
}

#[test]
fn process_substitution() {
    let (_, subs) = parse_with_substitutions("diff <(ls a) <(ls b)");
    assert_eq!(subs.len(), 2);
    assert_eq!(subs[0], "ls a");
    assert_eq!(subs[1], "ls b");
}

// ── Redirection detection ──

#[test]
fn redir_simple_gt() {
    assert!(has_output_redirection("echo hi > file").is_some());
}

#[test]
fn redir_append() {
    assert!(has_output_redirection("echo hi >> file").is_some());
}

#[test]
fn redir_ampersand_gt() {
    assert!(has_output_redirection("cmd &> file").is_some());
}

#[test]
fn no_redir_devnull() {
    assert!(has_output_redirection("cmd > /dev/null").is_none());
}

#[test]
fn no_redir_devnull_stderr() {
    assert!(has_output_redirection("cmd 2>/dev/null").is_none());
}

#[test]
fn no_redir_devnull_append() {
    assert!(has_output_redirection("cmd >> /dev/null").is_none());
}

#[test]
fn no_redir_devnull_ampersand() {
    assert!(has_output_redirection("cmd &>/dev/null").is_none());
}

#[test]
fn no_redir_fd_dup_stderr_to_stdout() {
    assert!(has_output_redirection("cmd 2>&1").is_none());
}

#[test]
fn no_redir_fd_dup_stdout_to_stderr() {
    assert!(has_output_redirection("cmd >&2").is_none());
}

#[test]
fn no_redir_fd_close() {
    assert!(has_output_redirection("cmd >&-").is_none());
}

#[test]
fn redir_custom_fd_target() {
    let r = has_output_redirection("cmd >&3");
    assert!(r.is_some());
    assert!(r.unwrap().description.contains("custom fd target"));
}

#[test]
fn no_redir_quoted() {
    assert!(has_output_redirection(r#"echo ">""#).is_none());
}

#[test]
fn no_redir_process_subst() {
    assert!(has_output_redirection("diff <(ls) >(cat)").is_none());
}

#[test]
fn redir_clobber() {
    let r = has_output_redirection("echo hi >| file.txt");
    assert!(r.is_some(), "expected >| to be flagged as output redirection");
    assert!(r.unwrap().description.contains(">|"));
}

#[test]
fn redir_clobber_devnull() {
    assert!(has_output_redirection("echo hi >| /dev/null").is_none());
}

#[test]
fn redir_read_write_detected() {
    let r = has_output_redirection("cat <> file.txt");
    assert!(r.is_some(), "expected <> to be flagged as output redirection");
    assert!(r.unwrap().description.contains("<>"));
}

// ── Control flow ──

#[test]
fn for_loop_extracts_body() {
    let (p, _) = parse_with_substitutions("for i in *; do echo \"$i\"; done");
    assert!(p.segments.iter().all(|s| !s.command.starts_with("for")));
    assert!(p.segments.iter().any(|s| s.command.contains("echo")));
}

#[test]
fn if_statement_extracts_body() {
    let (p, _) = parse_with_substitutions("if test -f x; then echo yes; fi");
    assert!(p.segments.iter().all(|s| !s.command.starts_with("if")));
    assert!(p.segments.iter().any(|s| s.command.contains("test")));
    assert!(p.segments.iter().any(|s| s.command.contains("echo")));
}

#[test]
fn while_loop_extracts_body() {
    let (p, _) = parse_with_substitutions("while true; do sleep 1; done");
    assert!(p.segments.iter().all(|s| !s.command.starts_with("while")));
    assert!(p.segments.iter().any(|s| s.command.contains("true")));
    assert!(p.segments.iter().any(|s| s.command.contains("sleep")));
}

#[test]
fn case_pattern_not_treated_as_command() {
    let (p, _) = parse_with_substitutions(r#"case $x in rm) echo hi ;; kubectl) echo bye ;; esac"#);
    let commands: Vec<&str> = p.segments.iter().map(|s| s.command.as_str()).collect();
    assert!(!p.segments.iter().any(|s| s.command.trim() == "rm"), "case pattern 'rm' leaked as segment: {commands:?}");
    assert!(
        !p.segments.iter().any(|s| s.command.trim() == "kubectl"),
        "case pattern 'kubectl' leaked as segment: {commands:?}"
    );
    assert!(p.segments.iter().any(|s| s.command.contains("echo hi")), "expected 'echo hi' body: {commands:?}");
    assert!(p.segments.iter().any(|s| s.command.contains("echo bye")), "expected 'echo bye' body: {commands:?}");
}

#[test]
fn compound_heredoc_pipe_unwraps_body() {
    let cmd = "while true; do shred /dev/sda; done <<EOF | cat\nstuff\nEOF";
    let (p, _) = parse_with_substitutions(cmd);
    let commands: Vec<&str> = p.segments.iter().map(|s| s.command.as_str()).collect();
    assert!(
        !p.segments.iter().any(|s| s.command.starts_with("while")),
        "while-loop was not unwrapped in heredoc pipe path: {commands:?}"
    );
    assert!(
        p.segments.iter().any(|s| s.command.contains("shred")),
        "expected 'shred' to be extracted from loop body: {commands:?}"
    );
    assert!(p.segments.iter().any(|s| s.command.trim() == "cat"), "expected piped 'cat' segment: {commands:?}");
}

// ── Further cases ──

#[test]
fn trivial_command_kept_trimmed() {
    let (p, subs) = parse_with_substitutions("  ls -la  ");
    assert_eq!(p.segments.len(), 1);
    assert_eq!(p.segments[0].command, "ls -la");
    assert!(subs.is_empty());
}

#[test]
fn redirection_description_exact() {
    assert_eq!(has_output_redirection("ls > out").unwrap().description, "output redirection (>)");
    assert_eq!(has_output_redirection("ls 2>> out").unwrap().description, "output redirection (2>>)");
    assert_eq!(has_output_redirection("ls &>> out").unwrap().description, "output redirection (&>>)");
    assert_eq!(
        has_output_redirection("ls 2>&5").unwrap().description,
        "output redirection (2>&5, custom fd target)"
    );
    assert!(has_output_redirection("cat < in.txt").is_none());
    assert!(has_output_redirection("cat <<< hello").is_none());
}

#[test]
fn redirected_loop_propagates_to_segments() {
    let (p, _) = parse_with_substitutions("for f in *; do cat \"$f\"; done > all.txt");
    assert_eq!(p.segments.len(), 1);
    assert_eq!(p.segments[0].command, "cat \"$f\"");
    assert_eq!(p.segments[0].redirection.as_ref().unwrap().description, "output redirection (>)");
}

#[test]
fn nested_substitution_only_outermost() {
    let (p, subs) = parse_with_substitutions("ls $(cat $(which foo))");
    assert_eq!(subs, vec!["cat $(which foo)"]);
    assert_eq!(p.segments[0].command, "ls __SUBST__");
}

#[test]
fn decompose_given_tree() {
    // `a|b` as tree-sitter gives it: program > pipeline > command, |, command.
    let node = |kind: NodeKind, named: bool, start: usize, end: usize, depth: usize| Node { kind, named, start, end, depth };
    let nodes = vec![
        node(NodeKind::Program, true, 0, 3, 0),
        node(NodeKind::Pipeline, true, 0, 3, 1),
        node(NodeKind::Command, true, 0, 1, 2),
        node(NodeKind::Word, true, 0, 1, 3),
        node(NodeKind::Bar, false, 1, 2, 2),
        node(NodeKind::Command, true, 2, 3, 2),
        node(NodeKind::Word, true, 2, 3, 3),
    ];
    let (p, subs) = decompose("a|b", &nodes);
    let commands: Vec<&str> = p.segments.iter().map(|s| s.command.as_str()).collect();
    assert_eq!(commands, vec!["a", "b"]);
    assert_eq!(p.operators, vec![Operator::Pipe]);
    assert!(subs.is_empty());
}

#[test]
fn decompose_without_nodes_keeps_command() {
    let (p, subs) = decompose(" x y ", &Vec::new());
    assert_eq!(p.segments.len(), 1);
    assert_eq!(p.segments[0].command, "x y");
    assert!(p.segments[0].redirection.is_none());
    assert!(subs.is_empty());
}

#[test]
fn multibyte_text_offsets() {
    let (p, subs) = parse_with_substitutions("echo héllo && echo $(printf 'ü')");
    let commands: Vec<&str> = p.segments.iter().map(|s| s.command.as_str()).collect();
    assert_eq!(commands, vec!["echo héllo", "echo __SUBST__"]);
    assert_eq!(subs, vec!["printf 'ü'"]);
}

#[test]
fn dump_sections() {
    let out = cc_toolgate::dump::dump_ast("ls $(pwd) > f");
    assert!(out.starts_with("── tree-sitter AST ──\nprogram [named] \"ls $(pwd) > f\"\n"), "{out}");
    assert!(out.contains("\n── parsed pipeline ──\n  segment 0: \"ls __SUBST__ > f\" [output redirection (>)]\n"), "{out}");
    assert!(out.contains("\n── substitutions ──\n  0: \"pwd\"\n"), "{out}");
    assert!(out.ends_with("\n── output redirection ──\n  output redirection (>)\n"), "{out}");
}

#[test]
fn dump_of_given_nodes() {
    let raw = vec![SyntaxNode { kind: "program".to_string(), named: true, start_byte: 0, end_byte: 2, depth: 0 }];
    let out = cc_toolgate::dump::render_dump("ab", &raw);
    assert_eq!(
        out,
        "── tree-sitter AST ──\nprogram [named] \"ab\"\n\n── parsed pipeline ──\n  segment 0: \"ab\"\n\n── output redirection ──\n  (none)\n"
    );
}

#[test]
fn one_operator_between_each_two_segments() {
    let (p, _) = parse_with_substitutions("ls; pwd && echo hi | wc -l");
    assert_eq!(p.segments.len(), 4);
    assert_eq!(p.operators.len(), p.segments.len() - 1);
    assert_eq!(p.operators, vec![Operator::Semi, Operator::And, Operator::Pipe]);
}
