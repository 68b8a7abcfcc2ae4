use cc_toolgate::cargo::CargoSpec;
use cc_toolgate::config::{CargoConfig, Config, GhConfig, GitConfig, KubectlConfig};
use cc_toolgate::context::CommandContext;
use cc_toolgate::gh::GhSpec;
use cc_toolgate::git::GitSpec;
use cc_toolgate::kubectl::KubectlSpec;
use cc_toolgate::names::NameMap;
use cc_toolgate::Decision;

fn strings(items: &[&str]) -> Vec<String> {
    items.iter().map(|s| s.to_string()).collect()
}

fn env_of(pairs: &[(&str, &str)]) -> NameMap<String> {
    let mut m = NameMap::new();
    for (k, v) in pairs {
        m.insert(k.to_string(), v.to_string());
    }
    m
}

// ── git ──

fn git_eval(cmd: &str) -> Decision {
    let s = GitSpec::from_config(&Config::default_config().git);
    s.evaluate(&CommandContext::from_command(cmd)).decision
}

fn git_spec_with_env_gate() -> GitSpec {
    GitSpec::from_config(&GitConfig {
        read_only: strings(&["status", "log", "diff", "branch"]),
        allowed_with_config: strings(&["push", "pull", "add"]),
        config_env: env_of(&[("GIT_CONFIG_GLOBAL", "~/.gitconfig.ai")]),
        force_push_flags: strings(&["--force", "-f", "--force-with-lease"]),
    })
}

fn git_eval_with_env_gate(cmd: &str) -> Decision {
    git_spec_with_env_gate().evaluate(&CommandContext::from_command(cmd)).decision
}

#[test]
fn default_push_asks() {
    assert_eq!(git_eval("git push origin main"), Decision::Ask);
}

#[test]
fn default_push_with_env_still_asks() {
    assert_eq!(git_eval("GIT_CONFIG_GLOBAL=~/.gitconfig.ai git push origin main"), Decision::Ask);
}

#[test]
fn allow_log() {
    assert_eq!(git_eval("git log --oneline -10"), Decision::Allow);
}

#[test]
fn allow_diff() {
    assert_eq!(git_eval("git diff HEAD~1"), Decision::Allow);
}

#[test]
fn allow_branch() {
    assert_eq!(git_eval("git branch -a"), Decision::Allow);
}

#[test]
fn git_allow_status() {
    assert_eq!(git_eval("git status"), Decision::Allow);
}

#[test]
fn redir_log() {
    assert_eq!(git_eval("git log > /tmp/log.txt"), Decision::Ask);
}

#[test]
fn env_gate_push_with_matching_value() {
    assert_eq!(git_eval_with_env_gate("GIT_CONFIG_GLOBAL=~/.gitconfig.ai git push origin main"), Decision::Allow);
}

#[test]
fn env_gate_push_with_wrong_value() {
    assert_eq!(git_eval_with_env_gate("GIT_CONFIG_GLOBAL=~/.gitconfig git push origin main"), Decision::Ask);
}

#[test]
fn env_gate_push_no_config() {
    assert_eq!(git_eval_with_env_gate("git push origin main"), Decision::Ask);
}

#[test]
fn env_gate_force_push() {
    assert_eq!(
        git_eval_with_env_gate("GIT_CONFIG_GLOBAL=~/.gitconfig.ai git push --force origin main"),
        Decision::Ask
    );
}

#[test]
fn env_gate_commit_still_asks() {
    assert_eq!(git_eval_with_env_gate("GIT_CONFIG_GLOBAL=~/.gitconfig.ai git commit -m 'test'"), Decision::Ask);
}

#[test]
fn allow_git_c_dir_status() {
    assert_eq!(git_eval("git -C /some/path status"), Decision::Allow);
}

#[test]
fn allow_git_c_dir_log() {
    assert_eq!(git_eval("git -C /some/repo log --oneline"), Decision::Allow);
}

#[test]
fn allow_git_c_dir_diff() {
    assert_eq!(git_eval("git -C ../other diff"), Decision::Allow);
}

#[test]
fn ask_git_c_dir_push() {
    assert_eq!(git_eval("git -C /some/repo push origin main"), Decision::Ask);
}

#[test]
fn allow_git_no_pager_log() {
    assert_eq!(git_eval("git --no-pager log"), Decision::Allow);
}

#[test]
fn allow_git_c_config_status() {
    assert_eq!(git_eval("git -c core.pager=cat status"), Decision::Allow);
}

#[test]
fn git_reasons_are_exact() {
    let s = GitSpec::from_config(&Config::default_config().git);
    let r = s.evaluate(&CommandContext::from_command("git status"));
    assert_eq!(r.reason, "read-only git status");
    let r = s.evaluate(&CommandContext::from_command("git push -f origin"));
    assert_eq!(r.reason, "git force-push requires confirmation");
    let r = s.evaluate(&CommandContext::from_command("git log > out.txt"));
    assert_eq!(r.reason, "git log with output redirection (>)");
    let r = s.evaluate(&CommandContext::from_command("git --version"));
    assert_eq!((r.decision, r.reason.as_str()), (Decision::Allow, "git --version"));
    let r = s.evaluate(&CommandContext::from_command("git"));
    assert_eq!((r.decision, r.reason.as_str()), (Decision::Ask, "git ? requires confirmation"));
}

#[test]
fn git_gate_reason_lists_sorted_variables() {
    let s = GitSpec::from_config(&GitConfig {
        read_only: strings(&[]),
        allowed_with_config: strings(&["push"]),
        config_env: env_of(&[("ZED", "1"), ("ALPHA", "2")]),
        force_push_flags: strings(&[]),
    });
    let r = s.evaluate(&CommandContext::from_command("ZED=1 ALPHA=2 git push"));
    assert_eq!((r.decision, r.reason.as_str()), (Decision::Allow, "git push with ALPHA, ZED"));
    let r = s.evaluate(&CommandContext::from_command("ZED=1 git push"));
    assert_eq!((r.decision, r.reason.as_str()), (Decision::Ask, "git push requires confirmation"));
}

#[test]
fn git_subcommand_skips_global_flags() {
    let ctx = CommandContext::from_command("FOO=1 git --bare -C dir -c k=v --no-pager log -p");
    assert_eq!(GitSpec::subcommand(&ctx), "log");
    let ctx = CommandContext::from_command("git -C");
    assert_eq!(GitSpec::subcommand(&ctx), "?");
}

// ── cargo ──

fn cargo_eval(cmd: &str) -> Decision {
    let s = CargoSpec::from_config(&Config::default_config().cargo);
    s.evaluate(&CommandContext::from_command(cmd)).decision
}

fn cargo_spec_with_env_gate() -> CargoSpec {
    CargoSpec::from_config(&CargoConfig {
        safe_subcommands: strings(&["build", "check", "test"]),
        allowed_with_config: strings(&["install", "publish"]),
        config_env: env_of(&[("CARGO_INSTALL_ROOT", "/tmp/bin")]),
    })
}

fn cargo_eval_with_env_gate(cmd: &str) -> Decision {
    cargo_spec_with_env_gate().evaluate(&CommandContext::from_command(cmd)).decision
}

#[test]
fn allow_build() {
    assert_eq!(cargo_eval("cargo build --release"), Decision::Allow);
}

#[test]
fn allow_test() {
    assert_eq!(cargo_eval("cargo test"), Decision::Allow);
}

#[test]
fn allow_clippy() {
    assert_eq!(cargo_eval("cargo clippy"), Decision::Allow);
}

#[test]
fn allow_version() {
    assert_eq!(cargo_eval("cargo --version"), Decision::Allow);
}

#[test]
fn allow_version_short() {
    assert_eq!(cargo_eval("cargo -V"), Decision::Allow);
}

#[test]
fn ask_install() {
    assert_eq!(cargo_eval("cargo install ripgrep"), Decision::Ask);
}

#[test]
fn ask_publish() {
    assert_eq!(cargo_eval("cargo publish"), Decision::Ask);
}

#[test]
fn redir_build() {
    assert_eq!(cargo_eval("cargo build --release > /tmp/log"), Decision::Ask);
}

#[test]
fn env_gate_install_with_matching_value() {
    assert_eq!(cargo_eval_with_env_gate("CARGO_INSTALL_ROOT=/tmp/bin cargo install ripgrep"), Decision::Allow);
}

#[test]
fn env_gate_install_with_wrong_value() {
    assert_eq!(cargo_eval_with_env_gate("CARGO_INSTALL_ROOT=/usr/local cargo install ripgrep"), Decision::Ask);
}

#[test]
fn env_gate_install_no_config() {
    assert_eq!(cargo_eval_with_env_gate("cargo install ripgrep"), Decision::Ask);
}

#[test]
fn env_gate_publish_with_config() {
    assert_eq!(cargo_eval_with_env_gate("CARGO_INSTALL_ROOT=/tmp/bin cargo publish"), Decision::Allow);
}

#[test]
fn env_gate_build_still_safe_no_env() {
    assert_eq!(cargo_eval_with_env_gate("cargo build"), Decision::Allow);
}

#[test]
fn cargo_reasons_are_exact() {
    let s = cargo_spec_with_env_gate();
    let r = s.evaluate(&CommandContext::from_command("cargo +nightly build"));
    assert_eq!((r.decision, r.reason.as_str()), (Decision::Ask, "cargo +nightly requires confirmation"));
    let r = s.evaluate(&CommandContext::from_command("cargo --locked check"));
    assert_eq!((r.decision, r.reason.as_str()), (Decision::Allow, "cargo check"));
    let r = s.evaluate(&CommandContext::from_command("CARGO_INSTALL_ROOT=/tmp/bin cargo install x"));
    assert_eq!(r.reason, "cargo install with CARGO_INSTALL_ROOT");
}

// ── kubectl ──

fn kubectl_eval(cmd: &str) -> Decision {
    let s = KubectlSpec::from_config(&Config::default_config().kubectl);
    s.evaluate(&CommandContext::from_command(cmd)).decision
}

fn kubectl_spec_with_env_gate() -> KubectlSpec {
    KubectlSpec::from_config(&KubectlConfig {
        read_only: strings(&["get", "describe"]),
        mutating: strings(&["delete"]),
        allowed_with_config: strings(&["apply", "rollout"]),
        config_env: env_of(&[("KUBECONFIG", "~/.kube/config.ai")]),
    })
}

fn kubectl_eval_with_env_gate(cmd: &str) -> Decision {
    kubectl_spec_with_env_gate().evaluate(&CommandContext::from_command(cmd)).decision
}

#[test]
fn allow_get() {
    assert_eq!(kubectl_eval("kubectl get pods"), Decision::Allow);
}

#[test]
fn allow_describe() {
    assert_eq!(kubectl_eval("kubectl describe svc foo"), Decision::Allow);
}

#[test]
fn allow_logs() {
    assert_eq!(kubectl_eval("kubectl logs pod/foo"), Decision::Allow);
}

#[test]
fn ask_apply() {
    assert_eq!(kubectl_eval("kubectl apply -f deploy.yaml"), Decision::Ask);
}

#[test]
fn ask_delete() {
    assert_eq!(kubectl_eval("kubectl delete pod foo"), Decision::Ask);
}

#[test]
fn redir_get() {
    assert_eq!(kubectl_eval("kubectl get pods > pods.txt"), Decision::Ask);
}

#[test]
fn env_gate_apply_with_matching_value() {
    assert_eq!(kubectl_eval_with_env_gate("KUBECONFIG=~/.kube/config.ai kubectl apply -f deploy.yaml"), Decision::Allow);
}

#[test]
fn env_gate_apply_with_wrong_value() {
    assert_eq!(kubectl_eval_with_env_gate("KUBECONFIG=~/.kube/config kubectl apply -f deploy.yaml"), Decision::Ask);
}

#[test]
fn env_gate_apply_no_config() {
    assert_eq!(kubectl_eval_with_env_gate("kubectl apply -f deploy.yaml"), Decision::Ask);
}

#[test]
fn env_gate_get_still_readonly() {
    assert_eq!(kubectl_eval_with_env_gate("kubectl get pods"), Decision::Allow);
}

#[test]
fn env_gate_delete_still_asks() {
    assert_eq!(kubectl_eval_with_env_gate("KUBECONFIG=~/.kube/config.ai kubectl delete pod foo"), Decision::Ask);
}

#[test]
fn kubectl_reasons_are_exact() {
    let s = kubectl_spec_with_env_gate();
    let r = s.evaluate(&CommandContext::from_command("kubectl -n prod get pods"));
    assert_eq!((r.decision, r.reason.as_str()), (Decision::Ask, "kubectl prod requires confirmation"));
    let r = s.evaluate(&CommandContext::from_command("kubectl get pods"));
    assert_eq!(r.reason, "read-only kubectl get");
}

// ── gh ──

fn gh_eval(cmd: &str) -> Decision {
    let s = GhSpec::from_config(&Config::default_config().gh);
    s.evaluate(&CommandContext::from_command(cmd)).decision
}

fn gh_spec_with_env_gate() -> GhSpec {
    GhSpec::from_config(&GhConfig {
        read_only: strings(&["pr list", "pr view", "status"]),
        mutating: strings(&["repo delete"]),
        allowed_with_config: strings(&["pr create", "pr merge"]),
        config_env: env_of(&[("GH_CONFIG_DIR", "~/.config/gh-ai")]),
    })
}

fn gh_eval_with_env_gate(cmd: &str) -> Decision {
    gh_spec_with_env_gate().evaluate(&CommandContext::from_command(cmd)).decision
}

#[test]
fn allow_pr_list() {
    assert_eq!(gh_eval("gh pr list"), Decision::Allow);
}

#[test]
fn allow_pr_view() {
    assert_eq!(gh_eval("gh pr view 123"), Decision::Allow);
}

#[test]
fn gh_allow_status() {
    assert_eq!(gh_eval("gh status"), Decision::Allow);
}

#[test]
fn allow_api() {
    assert_eq!(gh_eval("gh api repos/owner/repo/pulls"), Decision::Allow);
}

#[test]
fn ask_pr_create() {
    assert_eq!(gh_eval("gh pr create --title 'Fix'"), Decision::Ask);
}

#[test]
fn ask_pr_merge() {
    assert_eq!(gh_eval("gh pr merge 123"), Decision::Ask);
}

#[test]
fn ask_repo_delete() {
    assert_eq!(gh_eval("gh repo delete my-repo --yes"), Decision::Ask);
}

#[test]
fn redir_pr_list() {
    assert_eq!(gh_eval("gh pr list > /tmp/prs.txt"), Decision::Ask);
}

#[test]
fn env_gate_pr_create_with_matching_value() {
    assert_eq!(gh_eval_with_env_gate("GH_CONFIG_DIR=~/.config/gh-ai gh pr create --title 'Fix'"), Decision::Allow);
}

#[test]
fn env_gate_pr_create_with_wrong_value() {
    assert_eq!(gh_eval_with_env_gate("GH_CONFIG_DIR=~/.config/gh gh pr create --title 'Fix'"), Decision::Ask);
}

#[test]
fn env_gate_pr_create_no_config() {
    assert_eq!(gh_eval_with_env_gate("gh pr create --title 'Fix'"), Decision::Ask);
}

#[test]
fn env_gate_pr_merge_with_config() {
    assert_eq!(gh_eval_with_env_gate("GH_CONFIG_DIR=~/.config/gh-ai gh pr merge 123"), Decision::Allow);
}

#[test]
fn env_gate_pr_list_still_readonly() {
    assert_eq!(gh_eval_with_env_gate("gh pr list"), Decision::Allow);
}

#[test]
fn env_gate_repo_delete_still_asks() {
    assert_eq!(gh_eval_with_env_gate("GH_CONFIG_DIR=~/.config/gh-ai gh repo delete my-repo"), Decision::Ask);
}

#[test]
fn gh_subcommands_and_reasons() {
    let ctx = CommandContext::from_command("GH_TOKEN=x gh pr list --limit 5");
    assert_eq!(GhSpec::subcommands(&ctx), ("pr list".to_string(), "pr".to_string()));
    let ctx = CommandContext::from_command("gh");
    assert_eq!(GhSpec::subcommands(&ctx), (String::new(), "?".to_string()));
    let s = gh_spec_with_env_gate();
    let r = s.evaluate(&CommandContext::from_command("gh status"));
    assert_eq!((r.decision, r.reason.as_str()), (Decision::Allow, "read-only gh "));
    let r = s.evaluate(&CommandContext::from_command("gh repo delete x"));
    assert_eq!((r.decision, r.reason.as_str()), (Decision::Ask, "gh repo delete requires confirmation"));
    let r = s.evaluate(&CommandContext::from_command("gh pr list > out"));
    assert_eq!((r.decision, r.reason.as_str()), (Decision::Ask, "gh pr with output redirection (>)"));
}
