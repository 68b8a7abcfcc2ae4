//! Cargo: safe subcommands are allowed, variable-gated ones are allowed
//! when every required variable matches, `--version`/`-V` is allowed.

use vstd::prelude::*;
use crate::config::CargoConfig;
use crate::context::{CommandContext, Ctx, ctx_view, env_holds, has_word};
use crate::decision::{Decision, RuleMatch};
use crate::names::{NameMap, env_view};
use crate::rules::{listed, keys_display, env_keys_display, tool_subcommand, subcommand_after};
use crate::text::{views, concat2, concat3};

verus! {

/// The rules of a [`CargoSpec`] as plain values.
pub struct CargoRules {
    pub safe_subcommands: Seq<Seq<char>>,
    pub allowed_with_config: Seq<Seq<char>>,
    pub config_env: Seq<(Seq<char>, Seq<char>)>,
}

/// Subcommand-aware cargo rules.
pub struct CargoSpec {
    safe_subcommands: Vec<String>,
    allowed_with_config: Vec<String>,
    config_env: NameMap<String>,
}

impl View for CargoSpec {
    type V = CargoRules;

    closed spec fn view(&self) -> CargoRules {
        CargoRules {
            safe_subcommands: views(self.safe_subcommands@),
            allowed_with_config: views(self.allowed_with_config@),
            config_env: env_view(self.config_env),
        }
    }
}

/// The decision of the cargo rules `g` on command `c`.
pub open spec fn cargo_rule(g: CargoRules, c: Ctx) -> (Decision, Seq<char>) {
    let sub = tool_subcommand(c.words, "cargo"@);
    if has_word(g.safe_subcommands, sub) {
        match c.redir {
            Some(r) => (Decision::Ask, "cargo "@ + sub + " with "@ + r),
            None => (Decision::Allow, "cargo "@ + sub),
        }
    } else if has_word(g.allowed_with_config, sub) {
        if g.config_env.len() > 0 && env_holds(c, g.config_env) {
            match c.redir {
                Some(r) => (Decision::Ask, "cargo "@ + sub + " with "@ + r),
                None => (Decision::Allow, "cargo "@ + sub + " with "@ + keys_display(g.config_env)),
            }
        } else {
            (Decision::Ask, "cargo "@ + sub + " requires confirmation"@)
        }
    } else if has_word(c.words, "--version"@) || has_word(c.words, "-V"@) {
        (Decision::Allow, "cargo --version"@)
    } else {
        (Decision::Ask, "cargo "@ + sub + " requires confirmation"@)
    }
}

impl CargoSpec {
    /// The cargo rules of `config`.
    pub fn from_config(config: &CargoConfig) -> (s: Self)
        ensures
            s@ == (CargoRules {
                safe_subcommands: views(config.safe_subcommands@),
                allowed_with_config: views(config.allowed_with_config@),
                config_env: env_view(config.config_env),
            }),
    {
        let s = CargoSpec {
            safe_subcommands: config.safe_subcommands.clone(),
            allowed_with_config: config.allowed_with_config.clone(),
            config_env: config.config_env.duplicate(),
        };
        assert(views(s.safe_subcommands@) =~= views(config.safe_subcommands@));
        assert(views(s.allowed_with_config@) =~= views(config.allowed_with_config@));
        s
    }

    /// The cargo subcommand of `ctx`: the first word after `cargo` that
    /// does not start with `-` (`?` when there is none).
    pub fn subcommand(ctx: &CommandContext) -> (r: String)
        ensures
            r@ == tool_subcommand(views(ctx.words@), "cargo"@),
    {
        subcommand_after(&ctx.words, "cargo")
    }

    /// The decision for `ctx`.
    pub fn evaluate(&self, ctx: &CommandContext) -> (r: RuleMatch)
        ensures
            (r.decision, r.reason@) == cargo_rule(self@, ctx_view(*ctx)),
    {
        let sub = Self::subcommand(ctx);
        let s = sub.as_str();
        if listed(&self.safe_subcommands, s) {
            return match &ctx.redirection {
                Some(r) => RuleMatch {
                    decision: Decision::Ask,
                    reason: concat2(concat3("cargo ", s, " with ").as_str(), r.description.as_str()),
                },
                None => RuleMatch { decision: Decision::Allow, reason: concat2("cargo ", s) },
            };
        }
        if listed(&self.allowed_with_config, s) {
            if !self.config_env.is_empty() && ctx.env_satisfies(&self.config_env) {
                return match &ctx.redirection {
                    Some(r) => RuleMatch {
                        decision: Decision::Ask,
                        reason: concat2(concat3("cargo ", s, " with ").as_str(), r.description.as_str()),
                    },
                    None => {
                        let keys = env_keys_display(&self.config_env);
                        RuleMatch {
                            decision: Decision::Allow,
                            reason: concat2(concat3("cargo ", s, " with ").as_str(), keys.as_str()),
                        }
                    },
                };
            }
            return RuleMatch { decision: Decision::Ask, reason: concat3("cargo ", s, " requires confirmation") };
        }
        if ctx.has_flag("--version") || ctx.has_flag("-V") {
            return RuleMatch { decision: Decision::Allow, reason: String::from_str("cargo --version") };
        }
        RuleMatch { decision: Decision::Ask, reason: concat3("cargo ", s, " requires confirmation") }
    }
}

} // verus!
