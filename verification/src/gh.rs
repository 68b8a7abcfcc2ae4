//! GitHub CLI: subcommands are matched in their two-word form (`pr list`)
//! and their one-word form (`status`). Read-only ones are allowed,
//! variable-gated ones are allowed when every required variable matches,
//! the rest needs confirmation.

use vstd::prelude::*;
use crate::config::GhConfig;
use crate::context::{CommandContext, Ctx, ctx_view, env_holds, has_word};
use crate::decision::{Decision, RuleMatch};
use crate::names::{NameMap, env_view};
use crate::rules::{listed, keys_display, env_keys_display, find_word};
use crate::text::{views, str_eq, concat2, concat3};

verus! {

/// The rules of a [`GhSpec`] as plain values.
pub struct GhRules {
    pub read_only: Seq<Seq<char>>,
    pub mutating: Seq<Seq<char>>,
    pub allowed_with_config: Seq<Seq<char>>,
    pub config_env: Seq<(Seq<char>, Seq<char>)>,
}

/// Subcommand-aware gh rules.
pub struct GhSpec {
    read_only: Vec<String>,
    mutating: Vec<String>,
    allowed_with_config: Vec<String>,
    config_env: NameMap<String>,
}

impl View for GhSpec {
    type V = GhRules;

    closed spec fn view(&self) -> GhRules {
        GhRules {
            read_only: views(self.read_only@),
            mutating: views(self.mutating@),
            allowed_with_config: views(self.allowed_with_config@),
            config_env: env_view(self.config_env),
        }
    }
}

/// The index of the first word after `gh` (1 when there is no `gh`).
pub open spec fn gh_after(ws: Seq<Seq<char>>) -> int {
    match find_word(ws, "gh"@, 0) {
        Some(p) => p + 1,
        None => 1,
    }
}

/// The two-word subcommand (`pr list`), empty when there are not two
/// words after `gh`.
pub open spec fn gh_sub_two(ws: Seq<Seq<char>>) -> Seq<char> {
    let a = gh_after(ws);
    if ws.len() > a + 1 { ws[a] + " "@ + ws[a + 1] } else { Seq::empty() }
}

/// The one-word subcommand, `?` when there is none.
pub open spec fn gh_sub_one(ws: Seq<Seq<char>>) -> Seq<char> {
    let a = gh_after(ws);
    if a < ws.len() { ws[a] } else { "?"@ }
}

/// The decision of the gh rules `g` on command `c`.
pub open spec fn gh_rule(g: GhRules, c: Ctx) -> (Decision, Seq<char>) {
    let two = gh_sub_two(c.words);
    let one = gh_sub_one(c.words);
    if has_word(g.read_only, two) || has_word(g.read_only, one) {
        match c.redir {
            Some(r) => (Decision::Ask, "gh "@ + one + " with "@ + r),
            None => (Decision::Allow, "read-only gh "@ + two),
        }
    } else if has_word(g.allowed_with_config, two) || has_word(g.allowed_with_config, one) {
        if g.config_env.len() > 0 && env_holds(c, g.config_env) {
            match c.redir {
                Some(r) => (Decision::Ask, "gh "@ + one + " with "@ + r),
                None => (Decision::Allow, "gh "@ + two + " with "@ + keys_display(g.config_env)),
            }
        } else {
            (Decision::Ask, "gh "@ + two + " requires confirmation"@)
        }
    } else if has_word(g.mutating, two) || has_word(g.mutating, one) {
        (Decision::Ask, "gh "@ + two + " requires confirmation"@)
    } else {
        (Decision::Ask, "gh "@ + one + " requires confirmation"@)
    }
}

impl GhSpec {
    /// The gh rules of `config`.
    pub fn from_config(config: &GhConfig) -> (s: Self)
        ensures
            s@ == (GhRules {
                read_only: views(config.read_only@),
                mutating: views(config.mutating@),
                allowed_with_config: views(config.allowed_with_config@),
                config_env: env_view(config.config_env),
            }),
    {
        let s = GhSpec {
            read_only: config.read_only.clone(),
            mutating: config.mutating.clone(),
            allowed_with_config: config.allowed_with_config.clone(),
            config_env: config.config_env.duplicate(),
        };
        assert(views(s.read_only@) =~= views(config.read_only@));
        assert(views(s.mutating@) =~= views(config.mutating@));
        assert(views(s.allowed_with_config@) =~= views(config.allowed_with_config@));
        s
    }

    /// The two-word and one-word subcommands of `ctx`.
    pub fn subcommands(ctx: &CommandContext) -> (r: (String, String))
        ensures
            r.0@ == gh_sub_two(views(ctx.words@)),
            r.1@ == gh_sub_one(views(ctx.words@)),
    {
        let ghost ws = views(ctx.words@);
        let n = ctx.words.len();
        let mut i: usize = 0;
        while i < n && !str_eq(ctx.words[i].as_str(), "gh")
            invariant
                i <= n,
                n == ws.len(),
                ws == views(ctx.words@),
                find_word(ws, "gh"@, 0) == find_word(ws, "gh"@, i as int),
            decreases n - i,
        {
            assert(ws[i as int] == ctx.words@[i as int]@);
            i = i + 1;
        }
        let after: usize = if i < n {
            assert(ws[i as int] == ctx.words@[i as int]@);
            i + 1
        } else {
            1
        };
        assert(after as int == gh_after(ws));
        let two = if n > after && n - after > 1 {
            assert(ws[after as int] == ctx.words@[after as int]@);
            assert(ws[after + 1] == ctx.words@[after + 1]@);
            concat3(ctx.words[after].as_str(), " ", ctx.words[after + 1].as_str())
        } else {
            String::new()
        };
        let one = if after < n {
            assert(ws[after as int] == ctx.words@[after as int]@);
            ctx.words[after].clone()
        } else {
            String::from_str("?")
        };
        (two, one)
    }

    /// The decision for `ctx`.
    pub fn evaluate(&self, ctx: &CommandContext) -> (r: RuleMatch)
        ensures
            (r.decision, r.reason@) == gh_rule(self@, ctx_view(*ctx)),
    {
        let (two, one) = Self::subcommands(ctx);
        let t = two.as_str();
        let o = one.as_str();
        if listed(&self.read_only, t) || listed(&self.read_only, o) {
            return match &ctx.redirection {
                Some(r) => RuleMatch {
                    decision: Decision::Ask,
                    reason: concat2(concat3("gh ", o, " with ").as_str(), r.description.as_str()),
                },
                None => RuleMatch { decision: Decision::Allow, reason: concat2("read-only gh ", t) },
            };
        }
        if listed(&self.allowed_with_config, t) || listed(&self.allowed_with_config, o) {
            if !self.config_env.is_empty() && ctx.env_satisfies(&self.config_env) {
                return match &ctx.redirection {
                    Some(r) => RuleMatch {
                        decision: Decision::Ask,
                        reason: concat2(concat3("gh ", o, " with ").as_str(), r.description.as_str()),
                    },
                    None => {
                        let keys = env_keys_display(&self.config_env);
                        RuleMatch {
                            decision: Decision::Allow,
                            reason: concat2(concat3("gh ", t, " with ").as_str(), keys.as_str()),
                        }
                    },
                };
            }
            return RuleMatch { decision: Decision::Ask, reason: concat3("gh ", t, " requires confirmation") };
        }
        if listed(&self.mutating, t) || listed(&self.mutating, o) {
            return RuleMatch { decision: Decision::Ask, reason: concat3("gh ", t, " requires confirmation") };
        }
        RuleMatch { decision: Decision::Ask, reason: concat3("gh ", o, " requires confirmation") }
    }
}

} // verus!
