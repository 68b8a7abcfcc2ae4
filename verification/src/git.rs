//! Git: read-only subcommands are allowed, variable-gated ones are allowed
//! when every required variable matches, force-pushes always need
//! confirmation. Global flags such as `-C <path>` before the subcommand are
//! skipped.

use vstd::prelude::*;
use crate::config::GitConfig;
use crate::context::{CommandContext, Ctx, ctx_view, env_holds, has_word};
use crate::decision::{Decision, RuleMatch};
use crate::names::{NameMap, env_view};
use crate::rules::{listed, any_flag, has_any_of, keys_display, env_keys_display};
use crate::text::{views, str_eq, concat2, concat3};

verus! {

/// The rules of a [`GitSpec`] as plain values.
pub struct GitRules {
    pub read_only: Seq<Seq<char>>,
    pub allowed_with_config: Seq<Seq<char>>,
    pub config_env: Seq<(Seq<char>, Seq<char>)>,
    pub force_push_flags: Seq<Seq<char>>,
}

/// Subcommand-aware git rules.
pub struct GitSpec {
    read_only: Vec<String>,
    allowed_with_config: Vec<String>,
    config_env: NameMap<String>,
    force_push_flags: Vec<String>,
}

impl View for GitSpec {
    type V = GitRules;

    closed spec fn view(&self) -> GitRules {
        GitRules {
            read_only: views(self.read_only@),
            allowed_with_config: views(self.allowed_with_config@),
            config_env: env_view(self.config_env),
            force_push_flags: views(self.force_push_flags@),
        }
    }
}

/// Global flags that take the next word as their argument.
pub open spec fn global_arg_flag(w: Seq<char>) -> bool {
    w == "-C"@ || w == "-c"@ || w == "--git-dir"@ || w == "--work-tree"@ || w == "--namespace"@
}

/// Global flags that stand alone.
pub open spec fn global_solo_flag(w: Seq<char>) -> bool {
    ||| w == "--bare"@
    ||| w == "--no-pager"@
    ||| w == "--no-replace-objects"@
    ||| w == "--literal-pathspecs"@
    ||| w == "--glob-pathspecs"@
    ||| w == "--noglob-pathspecs"@
    ||| w == "--icase-pathspecs"@
    ||| w == "--no-optional-locks"@
}

/// The index after the first `git` word from `i` on (the end when none).
pub open spec fn after_git(ws: Seq<Seq<char>>, i: int) -> int
    decreases ws.len() - i,
{
    if i >= ws.len() { ws.len() as int } else if ws[i] == "git"@ { i + 1 } else { after_git(ws, i + 1) }
}

/// The first word from `i` on that is not a global flag (or a global
/// flag's argument).
pub open spec fn sub_from(ws: Seq<Seq<char>>, i: int) -> Option<Seq<char>>
    decreases ws.len() - i,
{
    if i >= ws.len() || i < 0 {
        None
    } else if global_arg_flag(ws[i]) {
        if i + 2 > ws.len() { None } else { sub_from(ws, i + 2) }
    } else if global_solo_flag(ws[i]) {
        sub_from(ws, i + 1)
    } else {
        Some(ws[i])
    }
}

/// The git subcommand, `?` when there is none.
pub open spec fn git_subcommand(ws: Seq<Seq<char>>) -> Seq<char> {
    match sub_from(ws, after_git(ws, 0)) {
        Some(s) => s,
        None => "?"@,
    }
}

/// The decision of the git rules `g` on command `c`.
pub open spec fn git_rule(g: GitRules, c: Ctx) -> (Decision, Seq<char>) {
    let sub = git_subcommand(c.words);
    if sub == "push"@ && any_flag(c, g.force_push_flags) {
        (Decision::Ask, "git force-push requires confirmation"@)
    } else if has_word(g.read_only, sub) {
        match c.redir {
            Some(r) => (Decision::Ask, "git "@ + sub + " with "@ + r),
            None => (Decision::Allow, "read-only git "@ + sub),
        }
    } else if has_word(g.allowed_with_config, sub) {
        if g.config_env.len() > 0 && env_holds(c, g.config_env) {
            match c.redir {
                Some(r) => (Decision::Ask, "git "@ + sub + " with "@ + r),
                None => (Decision::Allow, "git "@ + sub + " with "@ + keys_display(g.config_env)),
            }
        } else {
            (Decision::Ask, "git "@ + sub + " requires confirmation"@)
        }
    } else if has_word(c.words, "--version"@) && c.words.len() <= 3 {
        (Decision::Allow, "git --version"@)
    } else {
        (Decision::Ask, "git "@ + sub + " requires confirmation"@)
    }
}

fn is_global_arg_flag(w: &str) -> (r: bool)
    ensures
        r == global_arg_flag(w@),
{
    str_eq(w, "-C") || str_eq(w, "-c") || str_eq(w, "--git-dir") || str_eq(w, "--work-tree") || str_eq(w, "--namespace")
}

fn is_global_solo_flag(w: &str) -> (r: bool)
    ensures
        r == global_solo_flag(w@),
{
    str_eq(w, "--bare") || str_eq(w, "--no-pager") || str_eq(w, "--no-replace-objects")
        || str_eq(w, "--literal-pathspecs") || str_eq(w, "--glob-pathspecs") || str_eq(w, "--noglob-pathspecs")
        || str_eq(w, "--icase-pathspecs") || str_eq(w, "--no-optional-locks")
}

impl GitSpec {
    /// The git rules of `config`.
    pub fn from_config(config: &GitConfig) -> (s: Self)
        ensures
            s@ == (GitRules {
                read_only: views(config.read_only@),
                allowed_with_config: views(config.allowed_with_config@),
                config_env: env_view(config.config_env),
                force_push_flags: views(config.force_push_flags@),
            }),
    {
        let s = GitSpec {
            read_only: config.read_only.clone(),
            allowed_with_config: config.allowed_with_config.clone(),
            config_env: config.config_env.duplicate(),
            force_push_flags: config.force_push_flags.clone(),
        };
        assert(views(s.read_only@) =~= views(config.read_only@));
        assert(views(s.allowed_with_config@) =~= views(config.allowed_with_config@));
        assert(views(s.force_push_flags@) =~= views(config.force_push_flags@));
        s
    }

    /// The git subcommand of `ctx` (`?` when there is none).
    pub fn subcommand(ctx: &CommandContext) -> (r: String)
        ensures
            r@ == git_subcommand(views(ctx.words@)),
    {
        let ghost ws = views(ctx.words@);
        let n = ctx.words.len();
        let mut i: usize = 0;
        while i < n && !str_eq(ctx.words[i].as_str(), "git")
            invariant
                i <= n,
                n == ws.len(),
                ws == views(ctx.words@),
                after_git(ws, 0) == after_git(ws, i as int),
            decreases n - i,
        {
            i = i + 1;
        }
        if i < n {
            i = i + 1;
        }
        loop
            invariant
                i <= n + 1,
                n == ws.len(),
                ws == views(ctx.words@),
                sub_from(ws, after_git(ws, 0)) == sub_from(ws, i as int),
            decreases n + 2 - i,
        {
            if i >= n {
                return String::from_str("?");
            }
            let w = ctx.words[i].as_str();
            if is_global_arg_flag(w) {
                assert(ws[i as int] == ctx.words@[i as int]@);
                i = if n - i >= 2 { i + 2 } else { n };
            } else if is_global_solo_flag(w) {
                assert(ws[i as int] == ctx.words@[i as int]@);
                i = i + 1;
            } else {
                assert(ws[i as int] == ctx.words@[i as int]@);
                return ctx.words[i].clone();
            }
        }
    }

    /// The decision for `ctx`.
    pub fn evaluate(&self, ctx: &CommandContext) -> (r: RuleMatch)
        ensures
            (r.decision, r.reason@) == git_rule(self@, ctx_view(*ctx)),
    {
        let sub = Self::subcommand(ctx);
        let s = sub.as_str();
        if str_eq(s, "push") && has_any_of(ctx, &self.force_push_flags) {
            return RuleMatch { decision: Decision::Ask, reason: String::from_str("git force-push requires confirmation") };
        }
        if listed(&self.read_only, s) {
            return match &ctx.redirection {
                Some(r) => RuleMatch {
                    decision: Decision::Ask,
                    reason: concat2(concat3("git ", s, " with ").as_str(), r.description.as_str()),
                },
                None => RuleMatch { decision: Decision::Allow, reason: concat2("read-only git ", s) },
            };
        }
        if listed(&self.allowed_with_config, s) {
            if !self.config_env.is_empty() && ctx.env_satisfies(&self.config_env) {
                return match &ctx.redirection {
                    Some(r) => RuleMatch {
                        decision: Decision::Ask,
                        reason: concat2(concat3("git ", s, " with ").as_str(), r.description.as_str()),
                    },
                    None => {
                        let keys = env_keys_display(&self.config_env);
                        RuleMatch {
                            decision: Decision::Allow,
                            reason: concat2(concat3("git ", s, " with ").as_str(), keys.as_str()),
                        }
                    },
                };
            }
            return RuleMatch { decision: Decision::Ask, reason: concat3("git ", s, " requires confirmation") };
        }
        if ctx.has_flag("--version") && ctx.words.len() <= 3 {
            return RuleMatch { decision: Decision::Allow, reason: String::from_str("git --version") };
        }
        RuleMatch { decision: Decision::Ask, reason: concat3("git ", s, " requires confirmation") }
    }
}

} // verus!
