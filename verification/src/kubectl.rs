//! kubectl: read-only subcommands are allowed, variable-gated ones are
//! allowed when every required variable matches, everything else (known
//! mutating subcommands included) needs confirmation.

use vstd::prelude::*;
use crate::config::KubectlConfig;
use crate::context::{CommandContext, Ctx, ctx_view, env_holds, has_word};
use crate::decision::{Decision, RuleMatch};
use crate::names::{NameMap, env_view};
use crate::rules::{listed, keys_display, env_keys_display, tool_subcommand, subcommand_after};
use crate::text::{views, concat2, concat3};

verus! {

/// The rules of a [`KubectlSpec`] as plain values.
pub struct KubectlRules {
    pub read_only: Seq<Seq<char>>,
    pub mutating: Seq<Seq<char>>,
    pub allowed_with_config: Seq<Seq<char>>,
    pub config_env: Seq<(Seq<char>, Seq<char>)>,
}

/// Subcommand-aware kubectl rules.
pub struct KubectlSpec {
    read_only: Vec<String>,
    mutating: Vec<String>,
    allowed_with_config: Vec<String>,
    config_env: NameMap<String>,
}

impl View for KubectlSpec {
    type V = KubectlRules;

    closed spec fn view(&self) -> KubectlRules {
        KubectlRules {
            read_only: views(self.read_only@),
            mutating: views(self.mutating@),
            allowed_with_config: views(self.allowed_with_config@),
            config_env: env_view(self.config_env),
        }
    }
}

/// The decision of the kubectl rules `g` on command `c`.
pub open spec fn kubectl_rule(g: KubectlRules, c: Ctx) -> (Decision, Seq<char>) {
    let sub = tool_subcommand(c.words, "kubectl"@);
    if has_word(g.read_only, sub) {
        match c.redir {
            Some(r) => (Decision::Ask, "kubectl "@ + sub + " with "@ + r),
            None => (Decision::Allow, "read-only kubectl "@ + sub),
        }
    } else if has_word(g.allowed_with_config, sub) {
        if g.config_env.len() > 0 && env_holds(c, g.config_env) {
            match c.redir {
                Some(r) => (Decision::Ask, "kubectl "@ + sub + " with "@ + r),
                None => (Decision::Allow, "kubectl "@ + sub + " with "@ + keys_display(g.config_env)),
            }
        } else {
            (Decision::Ask, "kubectl "@ + sub + " requires confirmation"@)
        }
    } else {
        (Decision::Ask, "kubectl "@ + sub + " requires confirmation"@)
    }
}

impl KubectlSpec {
    /// The kubectl rules of `config`.
    pub fn from_config(config: &KubectlConfig) -> (s: Self)
        ensures
            s@ == (KubectlRules {
                read_only: views(config.read_only@),
                mutating: views(config.mutating@),
                allowed_with_config: views(config.allowed_with_config@),
                config_env: env_view(config.config_env),
            }),
    {
        let s = KubectlSpec {
            read_only: config.read_only.clone(),
            mutating: config.mutating.clone(),
            allowed_with_config: config.allowed_with_config.clone(),
            config_env: config.config_env.duplicate(),
        };
        assert(views(s.read_only@) =~= views(config.read_only@));
        assert(views(s.mutating@) =~= views(config.mutating@));
        assert(views(s.allowed_with_config@) =~= views(config.allowed_with_config@));
        s
    }

    /// The kubectl subcommand of `ctx`: the first word after `kubectl` that
    /// does not start with `-` (`?` when there is none).
    pub fn subcommand(ctx: &CommandContext) -> (r: String)
        ensures
            r@ == tool_subcommand(views(ctx.words@), "kubectl"@),
    {
        subcommand_after(&ctx.words, "kubectl")
    }

    /// The decision for `ctx`.
    pub fn evaluate(&self, ctx: &CommandContext) -> (r: RuleMatch)
        ensures
            (r.decision, r.reason@) == kubectl_rule(self@, ctx_view(*ctx)),
    {
        let sub = Self::subcommand(ctx);
        let s = sub.as_str();
        if listed(&self.read_only, s) {
            return match &ctx.redirection {
                Some(r) => RuleMatch {
                    decision: Decision::Ask,
                    reason: concat2(concat3("kubectl ", s, " with ").as_str(), r.description.as_str()),
                },
                None => RuleMatch { decision: Decision::Allow, reason: concat2("read-only kubectl ", s) },
            };
        }
        if listed(&self.allowed_with_config, s) {
            if !self.config_env.is_empty() && ctx.env_satisfies(&self.config_env) {
                return match &ctx.redirection {
                    Some(r) => RuleMatch {
                        decision: Decision::Ask,
                        reason: concat2(concat3("kubectl ", s, " with ").as_str(), r.description.as_str()),
                    },
                    None => {
                        let keys = env_keys_display(&self.config_env);
                        RuleMatch {
                            decision: Decision::Allow,
                            reason: concat2(concat3("kubectl ", s, " with ").as_str(), keys.as_str()),
                        }
                    },
                };
            }
            return RuleMatch { decision: Decision::Ask, reason: concat3("kubectl ", s, " requires confirmation") };
        }
        if listed(&self.mutating, s) {
            return RuleMatch { decision: Decision::Ask, reason: concat3("kubectl ", s, " requires confirmation") };
        }
        RuleMatch { decision: Decision::Ask, reason: concat3("kubectl ", s, " requires confirmation") }
    }
}

} // verus!
