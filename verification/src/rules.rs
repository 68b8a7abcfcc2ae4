//! Helpers shared by the command rules: list membership, the display of
//! required variables, and the rule for plain allow/ask/deny commands.

use vstd::prelude::*;
use crate::context::{CommandContext, Ctx, ctx_view, has_word};
use crate::decision::{Decision, RuleMatch};
use crate::names::{NameMap, env_view, keys_of};
use crate::text::{views, join, str_eq, join_strings, concat2, concat3};


verus! {

/// Whether `w` is one of the strings of `list`.
pub fn listed(list: &Vec<String>, w: &str) -> (r: bool)
    ensures
        r == has_word(views(list@), w@),
{
    let mut i: usize = 0;
    while i < list.len()
        invariant
            i <= list.len(),
            forall|j: int| 0 <= j < i ==> views(list@)[j] != w@,
        decreases list.len() - i,
    {
        if str_eq(list[i].as_str(), w) {
            assert(views(list@)[i as int] == w@);
            return true;
        }
        i = i + 1;
    }
    false
}

/// The names of the required variables, sorted, joined with `, `.
pub open spec fn keys_display(env: Seq<(Seq<char>, Seq<char>)>) -> Seq<char> {
    join(keys_of(env), ", "@)
}

/// The names of the variables of `m`, sorted, joined with `, `.
pub fn env_keys_display(m: &NameMap<String>) -> (r: String)
    ensures
        r@ == keys_display(env_view(*m)),
{
    let keys = m.keys();
    assert(keys_of(env_view(*m)) =~= keys_of(m@));
    join_strings(&keys, ", ")
}

/// Whether one of `flags` is a word of the command.
pub open spec fn any_flag(c: Ctx, flags: Seq<Seq<char>>) -> bool {
    exists|j: int| 0 <= j < flags.len() && has_word(c.words, #[trigger] flags[j])
}

/// Whether one of `flags` is a word of `ctx`.
pub fn has_any_of(ctx: &CommandContext, flags: &Vec<String>) -> (r: bool)
    ensures
        r == any_flag(ctx_view(*ctx), views(flags@)),
{
    let mut j: usize = 0;
    while j < flags.len()
        invariant
            j <= flags.len(),
            forall|m: int| 0 <= m < j ==> !has_word(views(ctx.words@), #[trigger] views(flags@)[m]),
        decreases flags.len() - j,
    {
        if ctx.has_flag(flags[j].as_str()) {
            assert(has_word(views(ctx.words@), views(flags@)[j as int]));
            return true;
        }
        j = j + 1;
    }
    false
}

/// The rule for a command listed as plain allow, ask or deny: an allowed
/// command with output redirection needs confirmation.
pub open spec fn simple_rule(d: Decision, c: Ctx) -> (Decision, Seq<char>) {
    match d {
        Decision::Allow => match c.redir {
            Some(r) => (Decision::Ask, c.base + " with "@ + r),
            None => (Decision::Allow, "allowed: "@ + c.base),
        },
        Decision::Ask => (Decision::Ask, c.base + " requires confirmation"@),
        Decision::Deny => (Decision::Deny, "denied: "@ + c.base),
    }
}

/// A command listed with a fixed decision.
#[derive(Debug, Clone, Copy, PartialEq, Eq, Structural)]
pub struct SimpleCommandSpec {
    /// The listed decision.
    pub decision: Decision,
}

impl SimpleCommandSpec {
    /// A command listed with `decision`.
    pub fn new(decision: Decision) -> (s: Self)
        ensures
            s.decision == decision,
    {
        SimpleCommandSpec { decision }
    }

    /// The decision for `ctx`.
    pub fn evaluate(&self, ctx: &CommandContext) -> (r: RuleMatch)
        ensures
            (r.decision, r.reason@) == simple_rule(self.decision, ctx_view(*ctx)),
    {
        match self.decision {
            Decision::Allow => match &ctx.redirection {
                Some(r) => RuleMatch {
                    decision: Decision::Ask,
                    reason: concat3(ctx.base_command.as_str(), " with ", r.description.as_str()),
                },
                None => RuleMatch { decision: Decision::Allow, reason: concat2("allowed: ", ctx.base_command.as_str()) },
            },
            Decision::Ask => RuleMatch {
                decision: Decision::Ask,
                reason: concat2(ctx.base_command.as_str(), " requires confirmation"),
            },
            Decision::Deny => RuleMatch { decision: Decision::Deny, reason: concat2("denied: ", ctx.base_command.as_str()) },
        }
    }
}

/// Whether `w` starts with `-`.
pub open spec fn is_flag(w: Seq<char>) -> bool {
    w.len() > 0 && w[0] == '-'
}

/// The first word from `i` on that does not start with `-`.
pub open spec fn first_non_flag(ws: Seq<Seq<char>>, i: int) -> Option<Seq<char>>
    decreases ws.len() - i,
{
    if i < 0 || i >= ws.len() {
        None
    } else if is_flag(ws[i]) {
        first_non_flag(ws, i + 1)
    } else {
        Some(ws[i])
    }
}

/// The index of the first word `name` from `i` on.
pub open spec fn find_word(ws: Seq<Seq<char>>, name: Seq<char>, i: int) -> Option<int>
    decreases ws.len() - i,
{
    if i < 0 || i >= ws.len() {
        None
    } else if ws[i] == name {
        Some(i)
    } else {
        find_word(ws, name, i + 1)
    }
}

/// The subcommand of a tool named `name`: the first word after `name`
/// that does not start with `-`, `?` when there is none.
pub open spec fn tool_subcommand(ws: Seq<Seq<char>>, name: Seq<char>) -> Seq<char> {
    match find_word(ws, name, 0) {
        Some(j) => match first_non_flag(ws, j + 1) {
            Some(s) => s,
            None => "?"@,
        },
        None => "?"@,
    }
}

/// Whether `w` starts with `-`.
pub fn starts_with_dash(w: &str) -> (r: bool)
    ensures
        r == is_flag(w@),
{
    let c = crate::text::chars_of(w);
    c.len() > 0 && c[0] == '-'
}

/// The subcommand of tool `name` in `words` (`?` when there is none).
pub fn subcommand_after(words: &Vec<String>, name: &str) -> (r: String)
    ensures
        r@ == tool_subcommand(views(words@), name@),
{
    let ghost ws = views(words@);
    let n = words.len();
    let mut i: usize = 0;
    while i < n && !str_eq(words[i].as_str(), name)
        invariant
            i <= n,
            n == ws.len(),
            ws == views(words@),
            find_word(ws, name@, 0) == find_word(ws, name@, i as int),
        decreases n - i,
    {
        assert(ws[i as int] == words@[i as int]@);
        i = i + 1;
    }
    if i == n {
        return String::from_str("?");
    }
    assert(ws[i as int] == words@[i as int]@);
    let mut j: usize = i + 1;
    while j < n && starts_with_dash(words[j].as_str())
        invariant
            i < j <= n,
            n == ws.len(),
            ws == views(words@),
            find_word(ws, name@, 0) == Some(i as int),
            first_non_flag(ws, i + 1) == first_non_flag(ws, j as int),
        decreases n - j,
    {
        assert(ws[j as int] == words@[j as int]@);
        j = j + 1;
    }
    if j == n {
        String::from_str("?")
    } else {
        assert(ws[j as int] == words@[j as int]@);
        words[j].clone()
    }
}

} // verus!
