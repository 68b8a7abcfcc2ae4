use cc_toolgate::config::Config;
use cc_toolgate::eval::CommandRegistry;
use cc_toolgate::names::NameMap;
use cc_toolgate::segments::{extract_segment_env, extract_unset_vars, is_likely_successful};
use cc_toolgate::Decision;

fn pairs(v: Vec<(String, String)>) -> Vec<(String, String)> {
    v
}

fn p(k: &str, v: &str) -> (String, String) {
    (k.to_string(), v.to_string())
}

/// A registry with git `push`, `commit` and `add` gated on
/// `GIT_CONFIG_GLOBAL=~/.gitconfig.ai`.
fn registry_with_git_env_gate() -> CommandRegistry {
    let mut config = Config::default_config();
    config.git.allowed_with_config = vec!["push".into(), "commit".into(), "add".into()];
    config.git.config_env.insert("GIT_CONFIG_GLOBAL".into(), "~/.gitconfig.ai".into());
    CommandRegistry::from_config(&config)
}

#[test]
fn likely_success_export() {
    assert!(is_likely_successful("export FOO=bar"));
}

#[test]
fn likely_success_export_multiple() {
    assert!(is_likely_successful("export A=1 B=2"));
}

#[test]
fn likely_success_bare_assignment() {
    assert!(is_likely_successful("FOO=bar"));
}

#[test]
fn likely_success_true() {
    assert!(is_likely_successful("true"));
}

#[test]
fn likely_success_echo() {
    assert!(is_likely_successful("echo hello"));
}

#[test]
fn likely_success_printf() {
    assert!(is_likely_successful("printf '%s\\n' hello"));
}

#[test]
fn likely_success_export_with_subshell_is_not_likely() {
    assert!(!is_likely_successful("export FOO=__SUBST__"));
}

#[test]
fn likely_success_echo_with_subshell_is_not_likely() {
    assert!(!is_likely_successful("echo __SUBST__"));
}

#[test]
fn likely_success_bare_assignment_with_subshell_is_not_likely() {
    assert!(!is_likely_successful("FOO=__SUBST__"));
}

#[test]
fn likely_success_unknown_command() {
    assert!(!is_likely_successful("some_command --flag"));
}

#[test]
fn likely_success_git() {
    assert!(!is_likely_successful("git push"));
}

#[test]
fn likely_success_rm() {
    assert!(!is_likely_successful("rm -rf /"));
}

#[test]
fn extract_env_export_single() {
    assert_eq!(extract_segment_env("export FOO=bar"), pairs(vec![p("FOO", "bar")]));
}

#[test]
fn extract_env_export_multiple() {
    assert_eq!(extract_segment_env("export A=1 B=2"), pairs(vec![p("A", "1"), p("B", "2")]));
}

#[test]
fn extract_env_export_with_path() {
    assert_eq!(
        extract_segment_env("export GIT_CONFIG_GLOBAL=~/.gitconfig.ai"),
        pairs(vec![p("GIT_CONFIG_GLOBAL", "~/.gitconfig.ai")])
    );
}

#[test]
fn extract_env_bare_assignment() {
    assert_eq!(extract_segment_env("FOO=bar"), pairs(vec![p("FOO", "bar")]));
}

#[test]
fn extract_env_export_no_value() {
    assert!(extract_segment_env("export FOO").is_empty());
}

#[test]
fn extract_env_export_flags() {
    assert!(extract_segment_env("export -p").is_empty());
}

#[test]
fn extract_env_non_export() {
    assert!(extract_segment_env("git push").is_empty());
}

#[test]
fn extract_unset_single() {
    assert_eq!(extract_unset_vars("unset FOO"), vec!["FOO"]);
}

#[test]
fn extract_unset_multiple() {
    assert_eq!(extract_unset_vars("unset FOO BAR"), vec!["FOO", "BAR"]);
}

#[test]
fn extract_unset_with_v_flag() {
    assert_eq!(extract_unset_vars("unset -v FOO"), vec!["FOO"]);
}

#[test]
fn extract_unset_with_f_flag() {
    assert!(extract_unset_vars("unset -f my_func").is_empty());
}

#[test]
fn extract_unset_mixed_flags() {
    assert_eq!(extract_unset_vars("unset -f my_func -v MY_VAR"), vec!["MY_VAR"]);
}

#[test]
fn extract_unset_not_unset_cmd() {
    assert!(extract_unset_vars("export FOO=bar").is_empty());
}

#[test]
fn export_semicolon_git_push_allows() {
    let reg = registry_with_git_env_gate();
    let result = reg.evaluate("export GIT_CONFIG_GLOBAL=~/.gitconfig.ai ; git push origin main");
    assert_eq!(result.decision, Decision::Allow, "reason: {}", result.reason);
}

#[test]
fn export_and_git_push_allows() {
    let reg = registry_with_git_env_gate();
    let result = reg.evaluate("export GIT_CONFIG_GLOBAL=~/.gitconfig.ai && git push origin main");
    assert_eq!(result.decision, Decision::Allow, "reason: {}", result.reason);
}

#[test]
fn multiple_exports_and_git_push_allows() {
    let reg = registry_with_git_env_gate();
    let result = reg.evaluate("export PATH=/usr/bin && export GIT_CONFIG_GLOBAL=~/.gitconfig.ai && git push origin main");
    assert_eq!(result.decision, Decision::Allow, "reason: {}", result.reason);
}

#[test]
fn export_or_git_push_does_not_allow() {
    let reg = registry_with_git_env_gate();
    let result = reg.evaluate("export GIT_CONFIG_GLOBAL=~/.gitconfig.ai || git push origin main");
    assert_eq!(result.decision, Decision::Ask, "reason: {}", result.reason);
}

#[test]
fn export_pipe_git_push_does_not_allow() {
    let reg = registry_with_git_env_gate();
    let result = reg.evaluate("export GIT_CONFIG_GLOBAL=~/.gitconfig.ai | git push origin main");
    assert_eq!(result.decision, Decision::Ask, "reason: {}", result.reason);
}

#[test]
fn unknown_cmd_breaks_and_chain() {
    let reg = registry_with_git_env_gate();
    let result = reg.evaluate("export GIT_CONFIG_GLOBAL=~/.gitconfig.ai && unknown_cmd && git push origin main");
    assert_eq!(result.decision, Decision::Ask, "reason: {}", result.reason);
}

#[test]
fn semicolon_after_unknown_cmd_resumes_accumulation() {
    let reg = registry_with_git_env_gate();
    let result = reg.evaluate("unknown_cmd ; export GIT_CONFIG_GLOBAL=~/.gitconfig.ai ; git push origin main");
    assert_eq!(result.decision, Decision::Ask, "reason: {}", result.reason);
}

#[test]
fn semicolon_resumes_accumulation_all_known() {
    let reg = registry_with_git_env_gate();
    let result = reg.evaluate("echo starting ; export GIT_CONFIG_GLOBAL=~/.gitconfig.ai ; git push origin main");
    assert_eq!(result.decision, Decision::Allow, "reason: {}", result.reason);
}

#[test]
fn bare_assignment_semicolon_git_push_allows() {
    let reg = registry_with_git_env_gate();
    let result = reg.evaluate("GIT_CONFIG_GLOBAL=~/.gitconfig.ai ; git push origin main");
    assert_eq!(result.decision, Decision::Allow, "reason: {}", result.reason);
}

#[test]
fn bare_assignment_and_git_push_allows() {
    let reg = registry_with_git_env_gate();
    let result = reg.evaluate("GIT_CONFIG_GLOBAL=~/.gitconfig.ai && git push origin main");
    assert_eq!(result.decision, Decision::Allow, "reason: {}", result.reason);
}

#[test]
fn wrong_export_value_still_asks() {
    let reg = registry_with_git_env_gate();
    let result = reg.evaluate("export GIT_CONFIG_GLOBAL=~/.gitconfig.wrong && git push origin main");
    assert_eq!(result.decision, Decision::Ask, "reason: {}", result.reason);
}

#[test]
fn export_overridden_by_later_export() {
    let reg = registry_with_git_env_gate();
    let result = reg.evaluate("export GIT_CONFIG_GLOBAL=wrong ; export GIT_CONFIG_GLOBAL=~/.gitconfig.ai ; git push origin main");
    assert_eq!(result.decision, Decision::Allow, "reason: {}", result.reason);
}

#[test]
fn or_after_export_clears_accumulated_env() {
    let reg = registry_with_git_env_gate();
    let result = reg.evaluate("export GIT_CONFIG_GLOBAL=~/.gitconfig.ai && echo ok || export OTHER=x && git push origin main");
    assert_eq!(result.decision, Decision::Ask, "reason: {}", result.reason);
}

#[test]
fn echo_and_export_and_git_push_allows() {
    let reg = registry_with_git_env_gate();
    let result = reg.evaluate("echo 'Pushing...' && export GIT_CONFIG_GLOBAL=~/.gitconfig.ai && git push origin main");
    assert_eq!(result.decision, Decision::Allow, "reason: {}", result.reason);
}

#[test]
fn realistic_claude_pattern() {
    let reg = registry_with_git_env_gate();
    let result = reg.evaluate("export PATH=/home/user/.cargo/bin:/usr/bin && export GIT_CONFIG_GLOBAL=~/.gitconfig.ai && echo 'Pushing...' && git push -u origin feature-branch");
    assert_eq!(result.decision, Decision::Allow, "reason: {}", result.reason);
}

#[test]
fn force_push_still_asks_with_export() {
    let reg = registry_with_git_env_gate();
    let result = reg.evaluate("export GIT_CONFIG_GLOBAL=~/.gitconfig.ai && git push --force origin main");
    assert_eq!(result.decision, Decision::Ask, "reason: {}", result.reason);
}

#[test]
fn subshell_in_export_breaks_and_chain() {
    let reg = registry_with_git_env_gate();
    let result = reg.evaluate("export GIT_CONFIG_GLOBAL=$(cat ~/.gitconfig.ai.path) && git push origin main");
    assert_eq!(result.decision, Decision::Ask, "reason: {}", result.reason);
}

#[test]
fn subshell_in_echo_breaks_and_chain() {
    let reg = registry_with_git_env_gate();
    let result = reg.evaluate("echo $(some_status_cmd) && export GIT_CONFIG_GLOBAL=~/.gitconfig.ai && git push origin main");
    assert_eq!(result.decision, Decision::Ask, "reason: {}", result.reason);
}

#[test]
fn unset_removes_accumulated_var() {
    let reg = registry_with_git_env_gate();
    let result = reg.evaluate("export GIT_CONFIG_GLOBAL=~/.gitconfig.ai ; unset GIT_CONFIG_GLOBAL ; git push origin main");
    assert_eq!(result.decision, Decision::Ask, "reason: {}", result.reason);
}

#[test]
fn unset_only_removes_named_var() {
    let reg = registry_with_git_env_gate();
    let result = reg.evaluate("export GIT_CONFIG_GLOBAL=~/.gitconfig.ai ; unset OTHER_VAR ; git push origin main");
    assert_eq!(result.decision, Decision::Allow, "reason: {}", result.reason);
}

#[test]
fn unset_f_does_not_remove_var() {
    let reg = registry_with_git_env_gate();
    let result = reg.evaluate("export GIT_CONFIG_GLOBAL=~/.gitconfig.ai ; unset -f GIT_CONFIG_GLOBAL ; git push origin main");
    assert_eq!(result.decision, Decision::Allow, "reason: {}", result.reason);
}

#[test]
fn env_i_clears_accumulated_env_for_wrapped_cmd() {
    let reg = registry_with_git_env_gate();
    let result = reg.evaluate("export GIT_CONFIG_GLOBAL=~/.gitconfig.ai ; env -i git push origin main");
    assert_eq!(result.decision, Decision::Ask, "reason: {}", result.reason);
}

#[test]
fn env_dash_clears_accumulated_env_for_wrapped_cmd() {
    let reg = registry_with_git_env_gate();
    let result = reg.evaluate("export GIT_CONFIG_GLOBAL=~/.gitconfig.ai ; env - git push origin main");
    assert_eq!(result.decision, Decision::Ask, "reason: {}", result.reason);
}

#[test]
fn env_without_i_passes_accumulated_env() {
    let reg = registry_with_git_env_gate();
    let result = reg.evaluate("export GIT_CONFIG_GLOBAL=~/.gitconfig.ai ; env git push origin main");
    assert_eq!(result.decision, Decision::Allow, "reason: {}", result.reason);
}

#[test]
fn process_env_is_consulted_last() {
    let mut reg = registry_with_git_env_gate();
    let mut env = NameMap::new();
    env.insert("GIT_CONFIG_GLOBAL".to_string(), "~/.gitconfig.ai".to_string());
    reg.set_process_env(env);
    assert_eq!(reg.evaluate("git push origin main").decision, Decision::Allow);
    // An inline assignment shadows the process environment.
    assert_eq!(reg.evaluate("GIT_CONFIG_GLOBAL=other git push origin main").decision, Decision::Ask);
}

#[test]
fn compound_reason_is_exact() {
    let reg = CommandRegistry::from_config(&Config::default_config());
    let r = reg.evaluate("ls $(rm x) && cat f");
    assert_eq!(r.decision, Decision::Ask);
    assert_eq!(
        r.reason,
        "compound command (&&; 1 substitution(s)):\n  subst[$(rm x)] -> ASK: rm requires confirmation\n  [ls __SUBST__] -> ALLOW: allowed: ls\n  [cat f] -> ALLOW: allowed: cat"
    );
}

#[test]
fn operators_listed_sorted_once() {
    let reg = CommandRegistry::from_config(&Config::default_config());
    let r = reg.evaluate("ls || ls | cat ; ls && ls | wc");
    assert!(r.reason.starts_with("compound command (&&, ;, |, ||):"), "{}", r.reason);
}

#[test]
fn single_command_reasons() {
    let reg = CommandRegistry::from_config(&Config::default_config());
    assert_eq!(reg.evaluate_single("   ").reason, "empty");
    assert_eq!(reg.evaluate_single("FOO=bar").reason, "variable assignment: FOO=bar");
    assert_eq!(reg.evaluate_single("frobnicate x").reason, "unrecognized command: frobnicate");
    assert_eq!(reg.evaluate_single("env").reason, "env (no wrapped command)");
    assert_eq!(reg.evaluate_single("sudo rm x").reason, "sudo wraps: rm requires confirmation");
    assert_eq!(reg.evaluate_single("mkfs.ext4 /dev/sda1").reason, "denied: mkfs.ext4");
    assert_eq!(reg.evaluate_single("xargs echo > out").reason, "xargs wraps: echo with output redirection (>)");
}

#[test]
fn escalation_reason() {
    let mut reg = CommandRegistry::from_config(&Config::default_config());
    reg.set_escalate_deny(true);
    let r = reg.evaluate("shred x");
    assert_eq!((r.decision, r.reason.as_str()), (Decision::Ask, "denied: shred (escalated from deny)"));
}

#[test]
fn wrapper_floor_holds() {
    let reg = CommandRegistry::from_config(&Config::default_config());
    assert_eq!(reg.evaluate("sudo ls").decision, Decision::Ask);
    assert_eq!(reg.evaluate("sudo shred x").decision, Decision::Deny);
    assert_eq!(reg.evaluate("nice -n 10 ls").decision, Decision::Allow);
}

#[test]
fn redirected_loop_segment_escalated() {
    let reg = CommandRegistry::from_config(&Config::default_config());
    let r = reg.evaluate("for f in *; do cat \"$f\"; done > all.txt");
    assert_eq!(r.decision, Decision::Ask);
    assert!(r.reason.contains("(escalated: wrapping output redirection (>))"), "{}", r.reason);
}


#[test]
fn list_precedence() {
    let mut config = Config::default_config();
    config.commands.allow.push("frob".to_string());
    config.commands.ask.push("frob".to_string());
    config.commands.deny.push("git".to_string());
    config.commands.allow.push("wrapme".to_string());
    config.wrappers.allow_floor.push("wrapme".to_string());
    config.wrappers.ask_floor.push("wrapme".to_string());
    let reg = CommandRegistry::from_config(&config);
    // The ask list wins over the allow list.
    assert_eq!(reg.evaluate_single("frob").decision, Decision::Ask);
    // Tool rules win over the plain lists.
    assert_eq!(reg.evaluate_single("git status").decision, Decision::Allow);
    // A wrapper is no plain command; the ASK floor wins.
    let r = reg.evaluate_single("wrapme ls");
    assert_eq!((r.decision, r.reason.as_str()), (Decision::Ask, "wrapme wraps: allowed: ls"));
}

#[test]
fn likely_success_unset_is_not_listed() {
    assert!(!is_likely_successful("unset FOO"));
}
