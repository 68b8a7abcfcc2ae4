//! The built-in configuration.

use vstd::prelude::*;
use crate::config::{Config, ConfigModel, Settings, Commands, WrapperConfig, GitConfig, CargoConfig, KubectlConfig, GhConfig, config_model};
use crate::names::{NameMap, env_view};
use crate::text::views;

verus! {

/// Strings holding the given names, in order.
fn names_of(list: &[&str]) -> (r: Vec<String>)
    ensures
        views(r@) == list@.map_values(|s: &str| s@),
{
    let mut r: Vec<String> = Vec::new();
    let mut i: usize = 0;
    while i < list.len()
        invariant
            i <= list.len(),
            views(r@) == list@.take(i as int).map_values(|s: &str| s@),
        decreases list.len() - i,
    {
        let s = String::from_str(list[i]);
        let ghost before = r@;
        r.push(s);
        assert(views(r@) =~= views(before).push(s@));
        assert(list@.take(i + 1).map_values(|s: &str| s@) =~= list@.take(i as int).map_values(|s: &str| s@).push(list@[i as int]@));
        i = i + 1;
    }
    assert(list@.take(list.len() as int) =~= list@);
    r
}

/// The built-in `allow` list.
pub open spec fn default_allow() -> Seq<Seq<char>> {
    seq!["ls"@, "cat"@, "head"@, "tail"@, "less"@, "more"@, "wc"@, "sort"@, "uniq"@, "cut"@, "tr"@, "grep"@, "rg"@, "fd"@, "find"@, "tree"@, "which"@, "whereis"@, "type"@, "file"@, "stat"@, "realpath"@, "readlink"@, "basename"@, "dirname"@, "pwd"@, "cd"@, "chdir"@, "echo"@, "printf"@, "true"@, "false"@, "test"@, "date"@, "cal"@, "uname"@, "hostname"@, "whoami"@, "id"@, "groups"@, "df"@, "du"@, "dust"@, "free"@, "uptime"@, "ps"@, "sleep"@, "diff"@, "cmp"@, "comm"@, "eza"@, "exa"@, "bat"@, "jq"@, "md5sum"@, "sha256sum"@, "seq"@, "export"@, "unset"@]
}

fn make_allow() -> (r: Vec<String>)
    ensures
        views(r@) == default_allow(),
{
    let r = names_of(&["ls", "cat", "head", "tail", "less", "more", "wc", "sort", "uniq", "cut", "tr", "grep", "rg", "fd", "find", "tree", "which", "whereis", "type", "file", "stat", "realpath", "readlink", "basename", "dirname", "pwd", "cd", "chdir", "echo", "printf", "true", "false", "test", "date", "cal", "uname", "hostname", "whoami", "id", "groups", "df", "du", "dust", "free", "uptime", "ps", "sleep", "diff", "cmp", "comm", "eza", "exa", "bat", "jq", "md5sum", "sha256sum", "seq", "export", "unset"]);
    assert(views(r@) =~= default_allow());
    r
}

/// The built-in `ask` list.
pub open spec fn default_ask() -> Seq<Seq<char>> {
    seq!["rm"@, "rmdir"@, "mkdir"@, "touch"@, "mv"@, "cp"@, "ln"@, "chmod"@, "chown"@, "chgrp"@, "tee"@, "sed"@, "awk"@, "curl"@, "wget"@, "pip"@, "pip3"@, "npm"@, "npx"@, "yarn"@, "pnpm"@, "python"@, "python3"@, "node"@, "ruby"@, "perl"@, "make"@, "cmake"@, "docker"@, "ssh"@, "scp"@, "rsync"@, "apt"@, "brew"@, "kill"@, "killall"@, "pkill"@, "su"@]
}

fn make_ask() -> (r: Vec<String>)
    ensures
        views(r@) == default_ask(),
{
    let r = names_of(&["rm", "rmdir", "mkdir", "touch", "mv", "cp", "ln", "chmod", "chown", "chgrp", "tee", "sed", "awk", "curl", "wget", "pip", "pip3", "npm", "npx", "yarn", "pnpm", "python", "python3", "node", "ruby", "perl", "make", "cmake", "docker", "ssh", "scp", "rsync", "apt", "brew", "kill", "killall", "pkill", "su"]);
    assert(views(r@) =~= default_ask());
    r
}

/// The built-in `deny` list.
pub open spec fn default_deny() -> Seq<Seq<char>> {
    seq!["shred"@, "dd"@, "mkfs"@, "fdisk"@, "parted"@, "wipefs"@, "shutdown"@, "reboot"@, "halt"@, "poweroff"@, "eval"@]
}

fn make_deny() -> (r: Vec<String>)
    ensures
        views(r@) == default_deny(),
{
    let r = names_of(&["shred", "dd", "mkfs", "fdisk", "parted", "wipefs", "shutdown", "reboot", "halt", "poweroff", "eval"]);
    assert(views(r@) =~= default_deny());
    r
}

/// The built-in `allow_floor` list.
pub open spec fn default_allow_floor() -> Seq<Seq<char>> {
    seq!["xargs"@, "parallel"@, "env"@, "nohup"@, "nice"@, "timeout"@, "time"@, "watch"@]
}

fn make_allow_floor() -> (r: Vec<String>)
    ensures
        views(r@) == default_allow_floor(),
{
    let r = names_of(&["xargs", "parallel", "env", "nohup", "nice", "timeout", "time", "watch"]);
    assert(views(r@) =~= default_allow_floor());
    r
}

/// The built-in `ask_floor` list.
pub open spec fn default_ask_floor() -> Seq<Seq<char>> {
    seq!["sudo"@, "doas"@, "pkexec"@]
}

fn make_ask_floor() -> (r: Vec<String>)
    ensures
        views(r@) == default_ask_floor(),
{
    let r = names_of(&["sudo", "doas", "pkexec"]);
    assert(views(r@) =~= default_ask_floor());
    r
}

/// The built-in `git_read_only` list.
pub open spec fn default_git_read_only() -> Seq<Seq<char>> {
    seq!["status"@, "log"@, "diff"@, "show"@, "branch"@, "blame"@, "stash"@, "tag"@, "remote"@, "rev-parse"@, "ls-files"@, "ls-tree"@, "describe"@, "shortlog"@, "reflog"@, "grep"@]
}

fn make_git_read_only() -> (r: Vec<String>)
    ensures
        views(r@) == default_git_read_only(),
{
    let r = names_of(&["status", "log", "diff", "show", "branch", "blame", "stash", "tag", "remote", "rev-parse", "ls-files", "ls-tree", "describe", "shortlog", "reflog", "grep"]);
    assert(views(r@) =~= default_git_read_only());
    r
}

/// The built-in `git_force_push_flags` list.
pub open spec fn default_git_force_push_flags() -> Seq<Seq<char>> {
    seq!["--force"@, "-f"@, "--force-with-lease"@]
}

fn make_git_force_push_flags() -> (r: Vec<String>)
    ensures
        views(r@) == default_git_force_push_flags(),
{
    let r = names_of(&["--force", "-f", "--force-with-lease"]);
    assert(views(r@) =~= default_git_force_push_flags());
    r
}

/// The built-in `cargo_safe_subcommands` list.
pub open spec fn default_cargo_safe_subcommands() -> Seq<Seq<char>> {
    seq!["build"@, "check"@, "test"@, "clippy"@, "fmt"@, "doc"@, "tree"@, "metadata"@, "bench"@, "search"@]
}

fn make_cargo_safe_subcommands() -> (r: Vec<String>)
    ensures
        views(r@) == default_cargo_safe_subcommands(),
{
    let r = names_of(&["build", "check", "test", "clippy", "fmt", "doc", "tree", "metadata", "bench", "search"]);
    assert(views(r@) =~= default_cargo_safe_subcommands());
    r
}

/// The built-in `kubectl_read_only` list.
pub open spec fn default_kubectl_read_only() -> Seq<Seq<char>> {
    seq!["get"@, "describe"@, "logs"@, "explain"@, "top"@, "version"@, "api-resources"@, "api-versions"@, "cluster-info"@]
}

fn make_kubectl_read_only() -> (r: Vec<String>)
    ensures
        views(r@) == default_kubectl_read_only(),
{
    let r = names_of(&["get", "describe", "logs", "explain", "top", "version", "api-resources", "api-versions", "cluster-info"]);
    assert(views(r@) =~= default_kubectl_read_only());
    r
}

/// The built-in `kubectl_mutating` list.
pub open spec fn default_kubectl_mutating() -> Seq<Seq<char>> {
    seq!["apply"@, "delete"@, "create"@, "edit"@, "patch"@, "replace"@, "rollout"@, "scale"@, "label"@, "annotate"@, "drain"@, "cordon"@, "uncordon"@, "taint"@, "exec"@, "cp"@, "port-forward"@, "run"@, "expose"@, "set"@]
}

fn make_kubectl_mutating() -> (r: Vec<String>)
    ensures
        views(r@) == default_kubectl_mutating(),
{
    let r = names_of(&["apply", "delete", "create", "edit", "patch", "replace", "rollout", "scale", "label", "annotate", "drain", "cordon", "uncordon", "taint", "exec", "cp", "port-forward", "run", "expose", "set"]);
    assert(views(r@) =~= default_kubectl_mutating());
    r
}

/// The built-in `gh_read_only` list.
pub open spec fn default_gh_read_only() -> Seq<Seq<char>> {
    seq!["pr list"@, "pr view"@, "pr diff"@, "pr checks"@, "pr status"@, "issue list"@, "issue view"@, "issue status"@, "repo view"@, "run list"@, "run view"@, "release list"@, "release view"@, "status"@, "search"@, "api"@, "auth status"@]
}

fn make_gh_read_only() -> (r: Vec<String>)
    ensures
        views(r@) == default_gh_read_only(),
{
    let r = names_of(&["pr list", "pr view", "pr diff", "pr checks", "pr status", "issue list", "issue view", "issue status", "repo view", "run list", "run view", "release list", "release view", "status", "search", "api", "auth status"]);
    assert(views(r@) =~= default_gh_read_only());
    r
}

/// The built-in `gh_mutating` list.
pub open spec fn default_gh_mutating() -> Seq<Seq<char>> {
    seq!["pr create"@, "pr merge"@, "pr close"@, "pr comment"@, "pr review"@, "pr edit"@, "issue create"@, "issue close"@, "issue comment"@, "issue edit"@, "repo create"@, "repo delete"@, "repo fork"@, "release create"@, "release delete"@]
}

fn make_gh_mutating() -> (r: Vec<String>)
    ensures
        views(r@) == default_gh_mutating(),
{
    let r = names_of(&["pr create", "pr merge", "pr close", "pr comment", "pr review", "pr edit", "issue create", "issue close", "issue comment", "issue edit", "repo create", "repo delete", "repo fork", "release create", "release delete"]);
    assert(views(r@) =~= default_gh_mutating());
    r
}

/// The built-in configuration as plain values: no variable-gated
/// subcommands, no required variables, DENY not escalated.
pub open spec fn default_model() -> ConfigModel {
    ConfigModel {
        escalate_deny: false,
        allow: default_allow(),
        ask: default_ask(),
        deny: default_deny(),
        allow_floor: default_allow_floor(),
        ask_floor: default_ask_floor(),
        git_read_only: default_git_read_only(),
        git_allowed_with_config: Seq::empty(),
        git_config_env: Seq::empty(),
        git_force_push_flags: default_git_force_push_flags(),
        cargo_safe_subcommands: default_cargo_safe_subcommands(),
        cargo_allowed_with_config: Seq::empty(),
        cargo_config_env: Seq::empty(),
        kubectl_read_only: default_kubectl_read_only(),
        kubectl_mutating: default_kubectl_mutating(),
        kubectl_allowed_with_config: Seq::empty(),
        kubectl_config_env: Seq::empty(),
        gh_read_only: default_gh_read_only(),
        gh_mutating: default_gh_mutating(),
        gh_allowed_with_config: Seq::empty(),
        gh_config_env: Seq::empty(),
    }
}

fn empty_env() -> (m: NameMap<String>)
    ensures
        env_view(m) == Seq::<(Seq<char>, Seq<char>)>::empty(),
{
    let m = NameMap::new();
    assert(env_view(m) =~= Seq::<(Seq<char>, Seq<char>)>::empty());
    m
}

fn no_names() -> (r: Vec<String>)
    ensures
        views(r@) == Seq::<Seq<char>>::empty(),
{
    let r: Vec<String> = Vec::new();
    assert(views(r@) =~= Seq::<Seq<char>>::empty());
    r
}

impl Config {
    /// The built-in configuration.
    pub fn default_config() -> (c: Config)
        ensures
            config_model(c) == default_model(),
    {
        Config {
            settings: Settings { escalate_deny: false },
            commands: Commands { allow: make_allow(), ask: make_ask(), deny: make_deny() },
            wrappers: WrapperConfig { allow_floor: make_allow_floor(), ask_floor: make_ask_floor() },
            git: GitConfig {
                read_only: make_git_read_only(),
                allowed_with_config: no_names(),
                config_env: empty_env(),
                force_push_flags: make_git_force_push_flags(),
            },
            cargo: CargoConfig {
                safe_subcommands: make_cargo_safe_subcommands(),
                allowed_with_config: no_names(),
                config_env: empty_env(),
            },
            kubectl: KubectlConfig {
                read_only: make_kubectl_read_only(),
                mutating: make_kubectl_mutating(),
                allowed_with_config: no_names(),
                config_env: empty_env(),
            },
            gh: GhConfig {
                read_only: make_gh_read_only(),
                mutating: make_gh_mutating(),
                allowed_with_config: no_names(),
                config_env: empty_env(),
            },
        }
    }
}

} // verus!
