//! The evaluation engine: a registry of command rules built from the
//! configuration, the evaluation of single commands (with wrapper
//! unwrapping), and the evaluation of whole command lines (segments,
//! operators, substitutions, and the environment passed from segment to
//! segment).

use vstd::prelude::*;
use crate::cargo::{CargoSpec, CargoRules, cargo_rule};
use crate::config::{Config, ConfigModel, config_model};
use crate::context::{CommandContext, Ctx, ctx_view, context_of, has_word};
use crate::decision::{Decision, RuleMatch, stricter, decision_label};
use crate::gh::{GhSpec, GhRules, gh_rule};
use crate::git::{GitSpec, GitRules, git_rule};
use crate::kubectl::{KubectlSpec, KubectlRules, kubectl_rule};
use crate::names::{NameMap, env_view, lookup, put, without};
use crate::rules::{SimpleCommandSpec, simple_rule, is_flag, starts_with_dash};
use crate::segments::{likely_successful, segment_env, unset_vars, is_likely_successful, extract_segment_env, extract_unset_vars};
use crate::shell::{Decomposition, decomposition, segments_view, parse_with_substitutions, keeps_operators};
use crate::syntax::bash_tree;
use crate::text::{trim, join, views, contains_seq, take_at_most, decimal, str_eq, str_contains, trim_str, chars_of, concat2, concat3, join_strings, prefix_chars, decimal_string, lemma_trim_len};
use crate::types::{Operator, ParsedPipeline};
use crate::words::{words_of, assignment, first_index, tokenize, parse_assignment, find_char, lemma_words_len, lemma_total_len_split, lemma_join_len};

verus! {

/// How a command name is judged.
#[derive(Debug, Clone, Copy, PartialEq, Eq, Structural)]
pub enum Rule {
    /// A fixed decision (allow, ask or deny list).
    Simple(Decision),
    /// The git rules.
    Git,
    /// The cargo rules.
    Cargo,
    /// The kubectl rules.
    Kubectl,
    /// The gh rules.
    Gh,
}

/// A registry as plain values.
pub struct RegistryModel {
    /// Command name to rule, sorted by name.
    pub specs: Seq<(Seq<char>, Rule)>,
    /// Wrapper name to floor decision, sorted by name.
    pub wrappers: Seq<(Seq<char>, Decision)>,
    pub git: GitRules,
    pub cargo: CargoRules,
    pub kubectl: KubectlRules,
    pub gh: GhRules,
    /// Whether DENY is turned into ASK.
    pub escalate_deny: bool,
    /// The evaluating process's environment.
    pub process_env: Seq<(Seq<char>, Seq<char>)>,
}

/// The registry of command rules.
pub struct CommandRegistry {
    specs: NameMap<Rule>,
    wrappers: NameMap<Decision>,
    git: GitSpec,
    cargo: CargoSpec,
    kubectl: KubectlSpec,
    gh: GhSpec,
    escalate_deny: bool,
    process_env: NameMap<String>,
}

impl View for CommandRegistry {
    type V = RegistryModel;

    closed spec fn view(&self) -> RegistryModel {
        RegistryModel {
            specs: self.specs@,
            wrappers: self.wrappers@,
            git: self.git@,
            cargo: self.cargo@,
            kubectl: self.kubectl@,
            gh: self.gh@,
            escalate_deny: self.escalate_deny,
            process_env: env_view(self.process_env),
        }
    }
}

// ── Building the registry ──

/// Binds each of `names` to `v`, in order.
pub open spec fn put_all<V>(s: Seq<(Seq<char>, V)>, names: Seq<Seq<char>>, v: V) -> Seq<(Seq<char>, V)>
    decreases names.len(),
{
    if names.len() == 0 { s } else { put(put_all(s, names.drop_last(), v), names.last(), v) }
}

/// Removes each of `names`, in order.
pub open spec fn remove_all<V>(s: Seq<(Seq<char>, V)>, names: Seq<Seq<char>>) -> Seq<(Seq<char>, V)>
    decreases names.len(),
{
    if names.len() == 0 { s } else { without(remove_all(s, names.drop_last()), names.last()) }
}

/// The rules of the plain lists (deny first, then allow, then ask: a later
/// list wins) and of the four tools, without the wrapper names.
pub open spec fn specs_of(m: ConfigModel) -> Seq<(Seq<char>, Rule)> {
    let s0 = put_all(
        put_all(put_all(Seq::empty(), m.deny, Rule::Simple(Decision::Deny)), m.allow, Rule::Simple(Decision::Allow)),
        m.ask,
        Rule::Simple(Decision::Ask),
    );
    let s1 = put(put(put(put(s0, "git"@, Rule::Git), "cargo"@, Rule::Cargo), "kubectl"@, Rule::Kubectl), "gh"@, Rule::Gh);
    remove_all(remove_all(s1, m.allow_floor), m.ask_floor)
}

/// The registry built from configuration `m`.
pub open spec fn registry_of(m: ConfigModel) -> RegistryModel {
    RegistryModel {
        specs: specs_of(m),
        wrappers: put_all(put_all(Seq::empty(), m.allow_floor, Decision::Allow), m.ask_floor, Decision::Ask),
        git: GitRules {
            read_only: m.git_read_only,
            allowed_with_config: m.git_allowed_with_config,
            config_env: m.git_config_env,
            force_push_flags: m.git_force_push_flags,
        },
        cargo: CargoRules {
            safe_subcommands: m.cargo_safe_subcommands,
            allowed_with_config: m.cargo_allowed_with_config,
            config_env: m.cargo_config_env,
        },
        kubectl: KubectlRules {
            read_only: m.kubectl_read_only,
            mutating: m.kubectl_mutating,
            allowed_with_config: m.kubectl_allowed_with_config,
            config_env: m.kubectl_config_env,
        },
        gh: GhRules {
            read_only: m.gh_read_only,
            mutating: m.gh_mutating,
            allowed_with_config: m.gh_allowed_with_config,
            config_env: m.gh_config_env,
        },
        escalate_deny: m.escalate_deny,
        process_env: Seq::empty(),
    }
}

/// Binds each name of `names` to `v` in `m`.
fn insert_all<V: Copy>(m: &mut NameMap<V>, names: &Vec<String>, v: V)
    ensures
        final(m)@ == put_all(old(m)@, views(names@), v),
{
    let ghost start = m@;
    let mut i: usize = 0;
    while i < names.len()
        invariant
            i <= names.len(),
            m@ == put_all(start, views(names@).take(i as int), v),
        decreases names.len() - i,
    {
        assert(views(names@).take(i + 1).drop_last() == views(names@).take(i as int));
        assert(views(names@).take(i + 1).last() == names@[i as int]@);
        m.insert(names[i].clone(), v);
        i = i + 1;
    }
    assert(views(names@).take(names.len() as int) == views(names@));
}

/// Removes each name of `names` from `m`.
fn remove_each<V>(m: &mut NameMap<V>, names: &Vec<String>)
    ensures
        final(m)@ == remove_all(old(m)@, views(names@)),
{
    let ghost start = m@;
    let mut i: usize = 0;
    while i < names.len()
        invariant
            i <= names.len(),
            m@ == remove_all(start, views(names@).take(i as int)),
        decreases names.len() - i,
    {
        assert(views(names@).take(i + 1).drop_last() == views(names@).take(i as int));
        assert(views(names@).take(i + 1).last() == names@[i as int]@);
        m.remove(names[i].as_str());
        i = i + 1;
    }
    assert(views(names@).take(names.len() as int) == views(names@));
}

// ── Single commands ──

/// The rule `rule` applied to context `c`.
pub open spec fn apply_rule(reg: RegistryModel, rule: Rule, c: Ctx) -> (Decision, Seq<char>) {
    match rule {
        Rule::Simple(d) => simple_rule(d, c),
        Rule::Git => git_rule(reg.git, c),
        Rule::Cargo => cargo_rule(reg.cargo, c),
        Rule::Kubectl => kubectl_rule(reg.kubectl, c),
        Rule::Gh => gh_rule(reg.gh, c),
    }
}

/// DENY turned into ASK when the registry escalates.
pub open spec fn escalated(reg: RegistryModel, r: (Decision, Seq<char>)) -> (Decision, Seq<char>) {
    if reg.escalate_deny && r.0 == Decision::Deny {
        (Decision::Ask, r.1 + " (escalated from deny)"@)
    } else {
        r
    }
}

/// The part of `s` before its first `.` (all of `s` when it has none).
pub open spec fn before_dot(s: Seq<char>) -> Seq<char> {
    match first_index(s, '.') {
        Some(i) => s.take(i),
        None => s,
    }
}

/// Only digits and dots (an empty word too).
pub open spec fn is_numeric(w: Seq<char>) -> bool {
    forall|i: int| 0 <= i < w.len() ==> ('0' <= #[trigger] w[i] && w[i] <= '9') || w[i] == '.'
}

/// For `env`: the first word from `i` on that is neither a flag nor
/// `KEY=VALUE`.
pub open spec fn env_cmd_start(ws: Seq<Seq<char>>, i: int) -> int
    decreases ws.len() - i,
{
    if i >= ws.len() {
        ws.len() as int
    } else if is_flag(ws[i]) || contains_seq(ws[i], "="@) {
        env_cmd_start(ws, i + 1)
    } else {
        i
    }
}

/// The first word from `i` on that is not a flag.
pub open spec fn flags_end(ws: Seq<Seq<char>>, i: int) -> int
    decreases ws.len() - i,
{
    if i >= ws.len() { ws.len() as int } else if is_flag(ws[i]) { flags_end(ws, i + 1) } else { i }
}

/// The first word from `i` on that is not numeric.
pub open spec fn numeric_end(ws: Seq<Seq<char>>, i: int) -> int
    decreases ws.len() - i,
{
    if i >= ws.len() { ws.len() as int } else if is_numeric(ws[i]) { numeric_end(ws, i + 1) } else { i }
}

/// Where the wrapped command starts among the words of a wrapper call:
/// for `env` after its flags and assignments, for other wrappers after
/// their flags and then their numeric arguments.
pub open spec fn wrapped_start(c: Ctx) -> int {
    if c.base == "env"@ { env_cmd_start(c.words, 1) } else { numeric_end(c.words, flags_end(c.words, 1)) }
}

/// The wrapped command: the remaining words joined by spaces.
pub open spec fn wrapped_command(c: Ctx) -> Seq<char> {
    let k = wrapped_start(c);
    if 0 <= k < c.words.len() { join(c.words.skip(k), " "@) } else { Seq::empty() }
}

proof fn lemma_starts(ws: Seq<Seq<char>>, i: int)
    requires
        0 <= i <= ws.len(),
    ensures
        i <= env_cmd_start(ws, i) <= ws.len(),
        i <= flags_end(ws, i) <= ws.len(),
        i <= numeric_end(ws, i) <= ws.len(),
    decreases ws.len() - i,
{
    if i < ws.len() {
        lemma_starts(ws, i + 1);
    }
}

/// A wrapped command is shorter than the wrapper call it came from.
pub proof fn lemma_wrapped_shorter(cmd: Seq<char>, c: Ctx)
    requires
        c.words == words_of(cmd),
    ensures
        wrapped_command(c).len() > 0 ==> wrapped_command(c).len() < cmd.len(),
{
    let ws = c.words;
    let k = wrapped_start(c);
    if 0 <= k < ws.len() {
        lemma_starts(ws, 1);
        lemma_starts(ws, flags_end(ws, 1));
        assert(k >= 1);
        lemma_words_len(cmd);
        lemma_total_len_split(ws, k);
        reveal_strlit(" ");
        lemma_join_len(ws.skip(k), " "@);
    }
}

/// The evaluation of a single command `cmd` with variables `acc` set by
/// earlier segments.
pub open spec fn eval_single(reg: RegistryModel, cmd: Seq<char>, acc: Seq<(Seq<char>, Seq<char>)>) -> (Decision, Seq<char>)
    decreases cmd.len(),
{
    let c = trim(cmd);
    if c.len() == 0 {
        (Decision::Allow, "empty"@)
    } else if words_of(c).len() == 1 && assignment(words_of(c)[0]) is Some {
        (Decision::Allow, "variable assignment: "@ + words_of(c)[0])
    } else {
        let ctx = context_of(c, acc, reg.process_env);
        match lookup(reg.wrappers, ctx.base) {
            Some(floor) => {
                let wrapped = wrapped_command(ctx);
                let (d, r) = if wrapped.len() > 0 {
                    let inner_env = if ctx.base == "env"@ && (has_word(ctx.words, "-i"@) || has_word(ctx.words, "-"@)) {
                        Seq::empty()
                    } else {
                        acc
                    };
                    proof {
                        lemma_wrapped_shorter(c, ctx);
                        lemma_trim_len(cmd);
                    }
                    let inner = eval_single(reg, wrapped, inner_env);
                    (stricter(floor, inner.0), ctx.base + " wraps: "@ + inner.1)
                } else {
                    (floor, ctx.base + " (no wrapped command)"@)
                };
                if d == Decision::Allow && ctx.redir is Some {
                    escalated(reg, (Decision::Ask, r + " with output redirection"@))
                } else {
                    escalated(reg, (d, r))
                }
            },
            None => match lookup(reg.specs, ctx.base) {
                Some(rule) => escalated(reg, apply_rule(reg, rule, ctx)),
                None => {
                    let p = before_dot(ctx.base);
                    match lookup(reg.specs, p) {
                        Some(rule) => if p != ctx.base {
                            escalated(reg, apply_rule(reg, rule, ctx))
                        } else {
                            (Decision::Ask, "unrecognized command: "@ + ctx.base)
                        },
                        None => (Decision::Ask, "unrecognized command: "@ + ctx.base),
                    }
                },
            },
        }
    }
}

/// Whether every character of `w` is a digit or a dot.
fn numeric_word(w: &str) -> (r: bool)
    ensures
        r == is_numeric(w@),
{
    let c = chars_of(w);
    let mut i: usize = 0;
    while i < c.len()
        invariant
            i <= c.len(),
            c@ == w@,
            forall|j: int| 0 <= j < i ==> ('0' <= #[trigger] c@[j] && c@[j] <= '9') || c@[j] == '.',
        decreases c.len() - i,
    {
        if !(('0' <= c[i] && c[i] <= '9') || c[i] == '.') {
            return false;
        }
        i = i + 1;
    }
    true
}

/// The part of `s` before its first `.`.
fn before_dot_str(s: &str) -> (r: String)
    ensures
        r@ == before_dot(s@),
{
    let c = chars_of(s);
    match find_char(c.as_slice(), '.') {
        Some(i) => {
            let head = crate::text::slice_range(c.as_slice(), 0, i);
            assert(c@.subrange(0, i as int) == c@.take(i as int));
            crate::text::string_of(head)
        },
        None => String::from_str(s),
    }
}

impl CommandRegistry {
    /// The registry of `config`: plain lists (a later list wins over an
    /// earlier one for the same name: deny, then allow, then ask), the four
    /// tools, and the wrappers, which are taken out of the command rules.
    pub fn from_config(config: &Config) -> (r: Self)
        ensures
            r@ == registry_of(config_model(*config)),
    {
        let mut specs: NameMap<Rule> = NameMap::new();
        insert_all(&mut specs, &config.commands.deny, Rule::Simple(Decision::Deny));
        insert_all(&mut specs, &config.commands.allow, Rule::Simple(Decision::Allow));
        insert_all(&mut specs, &config.commands.ask, Rule::Simple(Decision::Ask));
        specs.insert(String::from_str("git"), Rule::Git);
        specs.insert(String::from_str("cargo"), Rule::Cargo);
        specs.insert(String::from_str("kubectl"), Rule::Kubectl);
        specs.insert(String::from_str("gh"), Rule::Gh);
        remove_each(&mut specs, &config.wrappers.allow_floor);
        remove_each(&mut specs, &config.wrappers.ask_floor);
        let mut wrappers: NameMap<Decision> = NameMap::new();
        insert_all(&mut wrappers, &config.wrappers.allow_floor, Decision::Allow);
        insert_all(&mut wrappers, &config.wrappers.ask_floor, Decision::Ask);
        let process_env: NameMap<String> = NameMap::new();
        let r = CommandRegistry {
            specs,
            wrappers,
            git: GitSpec::from_config(&config.git),
            cargo: CargoSpec::from_config(&config.cargo),
            kubectl: KubectlSpec::from_config(&config.kubectl),
            gh: GhSpec::from_config(&config.gh),
            escalate_deny: config.settings.escalate_deny,
            process_env,
        };
        assert(env_view(r.process_env) =~= Seq::<(Seq<char>, Seq<char>)>::empty());
        r
    }

    /// Sets whether DENY is turned into ASK.
    pub fn set_escalate_deny(&mut self, escalate: bool)
        ensures
            final(self)@ == (RegistryModel { escalate_deny: escalate, ..old(self)@ }),
    {
        self.escalate_deny = escalate;
    }

    /// Sets the process environment that required variables fall back to.
    pub fn set_process_env(&mut self, env: NameMap<String>)
        ensures
            final(self)@ == (RegistryModel { process_env: env_view(env), ..old(self)@ }),
    {
        self.process_env = env;
    }

    /// The wrapped command of a wrapper call.
    fn extract_wrapped_command(ctx: &CommandContext) -> (r: String)
        ensures
            r@ == wrapped_command(ctx_view(*ctx)),
    {
        let ghost c = ctx_view(*ctx);
        let ghost ws = c.words;
        let n = ctx.words.len();
        if n == 0 {
            return String::new();
        }
        proof { lemma_starts(ws, 1); }
        let mut i: usize = 1;
        if str_eq(ctx.base_command.as_str(), "env") {
            while i < n && (starts_with_dash(ctx.words[i].as_str()) || str_contains(ctx.words[i].as_str(), "="))
                invariant
                    1 <= i <= n,
                    n == ws.len(),
                    ws == views(ctx.words@),
                    env_cmd_start(ws, 1) == env_cmd_start(ws, i as int),
                decreases n - i,
            {
                assert(ws[i as int] == ctx.words@[i as int]@);
                i = i + 1;
            }
        } else {
            while i < n && starts_with_dash(ctx.words[i].as_str())
                invariant
                    1 <= i <= n,
                    n == ws.len(),
                    ws == views(ctx.words@),
                    flags_end(ws, 1) == flags_end(ws, i as int),
                decreases n - i,
            {
                assert(ws[i as int] == ctx.words@[i as int]@);
                i = i + 1;
            }
            let ghost f = i as int;
            while i < n && numeric_word(ctx.words[i].as_str())
                invariant
                    1 <= i <= n,
                    n == ws.len(),
                    ws == views(ctx.words@),
                    f == flags_end(ws, 1),
                    numeric_end(ws, f) == numeric_end(ws, i as int),
                decreases n - i,
            {
                assert(ws[i as int] == ctx.words@[i as int]@);
                i = i + 1;
            }
        }
        assert(i as int == wrapped_start(c));
        let mut rest: Vec<String> = Vec::new();
        let start = i;
        while i < n
            invariant
                start <= i <= n,
                n == ws.len(),
                ws == views(ctx.words@),
                views(rest@) == ws.subrange(start as int, i as int),
            decreases n - i,
        {
            let w = ctx.words[i].clone();
            let ghost before = rest@;
            rest.push(w);
            assert(views(rest@) =~= views(before).push(w@));
            assert(ws.subrange(start as int, i + 1) =~= ws.subrange(start as int, i as int).push(ws[i as int]));
            i = i + 1;
        }
        assert(ws.subrange(start as int, n as int) =~= ws.skip(start as int));
        let r = join_strings(&rest, " ");
        proof {
            if start as int >= n as int {
                assert(views(rest@) =~= Seq::<Seq<char>>::empty());
            }
        }
        r
    }

    /// DENY turned into ASK when the registry escalates.
    fn maybe_escalate(&self, result: RuleMatch) -> (r: RuleMatch)
        ensures
            (r.decision, r.reason@) == escalated(self@, (result.decision, result.reason@)),
    {
        if self.escalate_deny && result.decision == Decision::Deny {
            RuleMatch { decision: Decision::Ask, reason: concat2(result.reason.as_str(), " (escalated from deny)") }
        } else {
            result
        }
    }

    /// Applies `rule` to `ctx`.
    fn apply(&self, rule: Rule, ctx: &CommandContext) -> (r: RuleMatch)
        ensures
            (r.decision, r.reason@) == apply_rule(self@, rule, ctx_view(*ctx)),
    {
        match rule {
            Rule::Simple(d) => SimpleCommandSpec::new(d).evaluate(ctx),
            Rule::Git => self.git.evaluate(ctx),
            Rule::Cargo => self.cargo.evaluate(ctx),
            Rule::Kubectl => self.kubectl.evaluate(ctx),
            Rule::Gh => self.gh.evaluate(ctx),
        }
    }

    /// Evaluates one (non-compound) command.
    pub fn evaluate_single(&self, command: &str) -> (r: RuleMatch)
        ensures
            (r.decision, r.reason@) == eval_single(self@, command@, Seq::empty()),
    {
        let env: NameMap<String> = NameMap::new();
        assert(env_view(env) =~= Seq::<(Seq<char>, Seq<char>)>::empty());
        self.evaluate_single_with_env(command, &env)
    }

    /// Evaluates one command with the variables `acc` set by earlier
    /// segments.
    fn evaluate_single_with_env(&self, command: &str, acc: &NameMap<String>) -> (r: RuleMatch)
        ensures
            (r.decision, r.reason@) == eval_single(self@, command@, env_view(*acc)),
        decreases command@.len(),
    {
        let trimmed = trim_str(command);
        let cmd = trimmed.as_str();
        if cmd.is_empty() {
            return RuleMatch { decision: Decision::Allow, reason: String::from_str("empty") };
        }
        let words = tokenize(cmd);
        if words.len() == 1 {
            assert(views(words@)[0] == words@[0]@);
            if parse_assignment(words[0].as_str()).is_some() {
                return RuleMatch { decision: Decision::Allow, reason: concat2("variable assignment: ", words[0].as_str()) };
            }
        }
        let mut ctx = CommandContext::from_command(cmd);
        ctx.accumulated_env = acc.duplicate();
        ctx.process_env = self.process_env.duplicate();
        let ghost c = ctx_view(ctx);
        assert(c == context_of(cmd@, env_view(*acc), self@.process_env));
        let base = ctx.base_command.as_str();
        match self.wrappers.get(base) {
            Some(floor_ref) => {
                let floor = *floor_ref;
                let wrapped = Self::extract_wrapped_command(&ctx);
                let mut strictest = floor;
                let mut reason: String;
                if !wrapped.as_str().is_empty() {
                    let clear = str_eq(base, "env") && (ctx.has_flag("-i") || ctx.has_flag("-"));
                    let inner_env = if clear { NameMap::new() } else { acc.duplicate() };
                    proof {
                        if clear {
                            assert(env_view(inner_env) =~= Seq::<(Seq<char>, Seq<char>)>::empty());
                        }
                        lemma_wrapped_shorter(cmd@, c);
                        lemma_trim_len(command@);
                    }
                    let inner = self.evaluate_single_with_env(wrapped.as_str(), &inner_env);
                    strictest = floor.max_with(inner.decision);
                    reason = concat3(base, " wraps: ", inner.reason.as_str());
                } else {
                    reason = concat2(base, " (no wrapped command)");
                }
                if strictest == Decision::Allow && ctx.redirection.is_some() {
                    strictest = Decision::Ask;
                    reason = concat2(reason.as_str(), " with output redirection");
                }
                return self.maybe_escalate(RuleMatch { decision: strictest, reason });
            },
            None => {},
        }
        match self.specs.get(base) {
            Some(rule) => {
                return self.maybe_escalate(self.apply(*rule, &ctx));
            },
            None => {},
        }
        let prefix = before_dot_str(base);
        match self.specs.get(prefix.as_str()) {
            Some(rule) => {
                if !str_eq(prefix.as_str(), base) {
                    return self.maybe_escalate(self.apply(*rule, &ctx));
                }
            },
            None => {},
        }
        RuleMatch { decision: Decision::Ask, reason: concat2("unrecognized command: ", base) }
    }
}

// ── Command lines ──

/// Enough operators for the segments (one between each two).
pub open spec fn ops_ok(d: Decomposition) -> bool {
    d.segments.len() == 0 || d.operators.len() + 1 >= d.segments.len()
}

/// The plain decomposition held by a pipeline and its substitutions.
pub open spec fn decomp_of(p: ParsedPipeline, subs: Vec<String>) -> Decomposition {
    Decomposition { segments: segments_view(p), operators: p.operators@, substitutions: views(subs@) }
}

/// The state of the evaluation after some segments: the strictest decision
/// so far, the reason lines, the variables known to be set, and whether the
/// last segment is known to have run.
pub struct SegState {
    pub strictest: Decision,
    pub lines: Seq<Seq<char>>,
    pub env: Seq<(Seq<char>, Seq<char>)>,
    pub executes: bool,
}

/// Binds each pair of `pairs`, in order.
pub open spec fn put_pairs(env: Seq<(Seq<char>, Seq<char>)>, pairs: Seq<(Seq<char>, Seq<char>)>) -> Seq<(Seq<char>, Seq<char>)>
    decreases pairs.len(),
{
    if pairs.len() == 0 { env } else { put(put_pairs(env, pairs.drop_last()), pairs.last().0, pairs.last().1) }
}

/// Whether segment `i` runs and the variables it sees, given the state
/// after the segments before it: `;` always runs the next segment, `&&`
/// only when the previous one ran and is expected to succeed; after `||`
/// and pipes nothing is known to run and no variable is passed on.
pub open spec fn seg_entry(segs: Seq<(Seq<char>, Option<Seq<char>>)>, ops: Seq<Operator>, st: SegState, i: int)
    -> (bool, Seq<(Seq<char>, Seq<char>)>)
{
    if i == 0 {
        (st.executes, st.env)
    } else {
        match ops[i - 1] {
            Operator::Semi => (true, st.env),
            Operator::And => (st.executes && likely_successful(segs[i - 1].0), st.env),
            _ => (false, Seq::empty()),
        }
    }
}

/// The decision and reason of segment `i` seeing variables `env`: its own
/// evaluation, escalated from ALLOW to ASK when a wrapping construct
/// redirects its output.
pub open spec fn seg_verdict(reg: RegistryModel, seg: (Seq<char>, Option<Seq<char>>), env: Seq<(Seq<char>, Seq<char>)>)
    -> (Decision, Seq<char>)
{
    let res = eval_single(reg, seg.0, env);
    match seg.1 {
        Some(r) => if res.0 == Decision::Allow {
            (Decision::Ask, res.1 + " (escalated: wrapping "@ + r + ")"@)
        } else {
            res
        },
        None => res,
    }
}

/// The reason line of a segment.
pub open spec fn seg_line(seg: Seq<char>, v: (Decision, Seq<char>)) -> Seq<char> {
    "  ["@ + take_at_most(trim(seg), 60) + "] -> "@ + decision_label(v.0) + ": "@ + v.1
}

/// The state after the first `n` segments.
pub open spec fn seg_results(reg: RegistryModel, segs: Seq<(Seq<char>, Option<Seq<char>>)>, ops: Seq<Operator>, n: int) -> SegState
    decreases n,
{
    if n <= 0 {
        SegState { strictest: Decision::Allow, lines: Seq::empty(), env: Seq::empty(), executes: true }
    } else {
        let st = seg_results(reg, segs, ops, n - 1);
        let i = n - 1;
        let (exec, env1) = seg_entry(segs, ops, st, i);
        let v = seg_verdict(reg, segs[i], env1);
        let env2 = if exec { remove_all(put_pairs(env1, segment_env(segs[i].0)), unset_vars(segs[i].0)) } else { env1 };
        SegState {
            strictest: stricter(st.strictest, v.0),
            lines: st.lines.push(seg_line(segs[i].0, v)),
            env: env2,
            executes: exec,
        }
    }
}

/// The evaluation of substitution `inner` of command `cmd`: as a command
/// line of its own (a substitution that were not shorter than the command
/// holding it is evaluated as a single command).
pub open spec fn subst_verdict(reg: RegistryModel, cmd: Seq<char>, inner: Seq<char>) -> (Decision, Seq<char>)
    decreases cmd.len(), 0nat, 0nat,
{
    if inner.len() < cmd.len() { eval_full(reg, inner) } else { eval_single(reg, inner, Seq::empty()) }
}

/// The reason line of a substitution.
pub open spec fn subst_line(inner: Seq<char>, v: (Decision, Seq<char>)) -> Seq<char> {
    "  subst[$("@ + take_at_most(trim(inner), 60) + ")] -> "@ + decision_label(v.0) + ": "@ + v.1
}

/// The strictest decision and the reason lines of the first `n`
/// substitutions.
pub open spec fn subst_results(reg: RegistryModel, cmd: Seq<char>, subs: Seq<Seq<char>>, n: nat) -> (Decision, Seq<Seq<char>>)
    decreases cmd.len(), 1nat, n,
{
    if n == 0 || n > subs.len() {
        (Decision::Allow, Seq::empty())
    } else {
        let (d, lines) = subst_results(reg, cmd, subs, (n - 1) as nat);
        let inner = subs[n - 1];
        let v = subst_verdict(reg, cmd, inner);
        (stricter(d, v.0), lines.push(subst_line(inner, v)))
    }
}

/// Whether operator `o` occurs in `ops`.
pub open spec fn has_op(ops: Seq<Operator>, o: Operator) -> bool {
    exists|i: int| 0 <= i < ops.len() && ops[i] == o
}

/// The operators present, as text, in `str` order, without repeats.
pub open spec fn ops_present(ops: Seq<Operator>) -> Seq<Seq<char>> {
    (if has_op(ops, Operator::And) { seq!["&&"@] } else { Seq::empty() })
        + (if has_op(ops, Operator::Semi) { seq![";"@] } else { Seq::empty() })
        + (if has_op(ops, Operator::Pipe) { seq!["|"@] } else { Seq::empty() })
        + (if has_op(ops, Operator::PipeErr) { seq!["|&"@] } else { Seq::empty() })
        + (if has_op(ops, Operator::Or) { seq!["||"@] } else { Seq::empty() })
}

/// The first line of a compound evaluation's reason.
pub open spec fn summary_header(ops: Seq<Operator>, nsubs: nat) -> Seq<char> {
    let desc = (if ops.len() > 0 { seq![join(ops_present(ops), ", "@)] } else { Seq::empty() })
        + (if nsubs > 0 { seq![decimal(nsubs) + " substitution(s)"@] } else { Seq::empty() });
    if desc.len() == 0 { "compound command"@ } else { "compound command ("@ + join(desc, "; "@) + ")"@ }
}

/// One statement whose text is the whole command: evaluated directly.
pub open spec fn is_passthrough(cmd: Seq<char>, d: Decomposition) -> bool {
    d.segments.len() <= 1 && d.substitutions.len() == 0
        && (d.segments.len() == 0 || trim(d.segments[0].0) == trim(cmd))
}

/// The evaluation of command line `cmd` decomposed as `d`: the strictest of
/// its substitutions and segments, with one reason line each.
pub open spec fn eval_parsed(reg: RegistryModel, cmd: Seq<char>, d: Decomposition) -> (Decision, Seq<char>)
    decreases cmd.len(), 2nat, 0nat,
{
    if is_passthrough(cmd, d) {
        eval_single(reg, cmd, Seq::empty())
    } else {
        let (sd, slines) = subst_results(reg, cmd, d.substitutions, d.substitutions.len());
        let st = seg_results(reg, d.segments, d.operators, d.segments.len() as int);
        (
            stricter(sd, st.strictest),
            summary_header(d.operators, d.substitutions.len()) + ":\n"@ + join(slines + st.lines, "\n"@),
        )
    }
}

/// The evaluation of command line `cmd`, parsed as bash. A decomposition
/// with fewer operators than segment gaps is answered with ASK; that can
/// only happen where the walk met two consecutive segments with no operator
/// token between them (see `keeps_operators`).
pub open spec fn eval_full(reg: RegistryModel, cmd: Seq<char>) -> (Decision, Seq<char>)
    decreases cmd.len(), 3nat, 0nat,
{
    let d = decomposition(cmd, bash_tree(cmd));
    if ops_ok(d) {
        eval_parsed(reg, cmd, d)
    } else {
        (Decision::Ask, "command structure could not be decomposed"@)
    }
}

/// Whether `o` occurs in `ops`.
fn contains_op(ops: &Vec<Operator>, o: Operator) -> (r: bool)
    ensures
        r == has_op(ops@, o),
{
    let mut i: usize = 0;
    while i < ops.len()
        invariant
            i <= ops.len(),
            forall|j: int| 0 <= j < i ==> ops@[j] != o,
        decreases ops.len() - i,
    {
        if ops[i] == o {
            return true;
        }
        i = i + 1;
    }
    false
}

/// Appends `s` to the strings `v`.
fn push_text(v: &mut Vec<String>, s: &str)
    ensures
        views(final(v)@) == views(old(v)@).push(s@),
{
    let t = String::from_str(s);
    let ghost before = v@;
    v.push(t);
    assert(views(v@) =~= views(before).push(s@));
}

/// The first line of a compound evaluation's reason.
fn summary_line(ops: &Vec<Operator>, nsubs: usize) -> (r: String)
    ensures
        r@ == summary_header(ops@, nsubs as nat),
{
    let mut present: Vec<String> = Vec::new();
    assert(views(present@) =~= Seq::<Seq<char>>::empty());
    if contains_op(ops, Operator::And) { push_text(&mut present, "&&"); }
    if contains_op(ops, Operator::Semi) { push_text(&mut present, ";"); }
    if contains_op(ops, Operator::Pipe) { push_text(&mut present, "|"); }
    if contains_op(ops, Operator::PipeErr) { push_text(&mut present, "|&"); }
    if contains_op(ops, Operator::Or) { push_text(&mut present, "||"); }
    assert(views(present@) =~= ops_present(ops@));
    let mut desc: Vec<String> = Vec::new();
    assert(views(desc@) =~= Seq::<Seq<char>>::empty());
    if ops.len() > 0 {
        let joined = join_strings(&present, ", ");
        push_text(&mut desc, joined.as_str());
    }
    if nsubs > 0 {
        let count = concat2(decimal_string(nsubs).as_str(), " substitution(s)");
        push_text(&mut desc, count.as_str());
    }
    assert(views(desc@) =~= (if ops@.len() > 0 { seq![join(ops_present(ops@), ", "@)] } else { Seq::empty() })
        + (if nsubs > 0 { seq![decimal(nsubs as nat) + " substitution(s)"@] } else { Seq::empty() }));
    if desc.len() == 0 {
        String::from_str("compound command")
    } else {
        concat3("compound command (", join_strings(&desc, "; ").as_str(), ")")
    }
}

proof fn lemma_stricter_assoc(a: Decision, b: Decision, c: Decision)
    ensures
        stricter(stricter(a, b), c) == stricter(a, stricter(b, c)),
{
}

impl CommandRegistry {
    /// Evaluates the command line `command`, already decomposed into
    /// `pipeline` and `substitutions`.
    pub fn evaluate_parsed(&self, command: &str, pipeline: &ParsedPipeline, substitutions: &Vec<String>) -> (r: RuleMatch)
        requires
            ops_ok(decomp_of(*pipeline, *substitutions)),
        ensures
            (r.decision, r.reason@) == eval_parsed(self@, command@, decomp_of(*pipeline, *substitutions)),
        decreases command@.len(), 0nat,
    {
        let ghost d = decomp_of(*pipeline, *substitutions);
        let nseg = pipeline.segments.len();
        if nseg <= 1 && substitutions.len() == 0 {
            let pass = if nseg == 0 {
                true
            } else {
                assert(d.segments[0].0 == pipeline.segments@[0].command@);
                let a = trim_str(pipeline.segments[0].command.as_str());
                let b = trim_str(command);
                str_eq(a.as_str(), b.as_str())
            };
            if pass {
                return self.evaluate_single(command);
            }
        }
        proof {
            if nseg == 1 {
                assert(d.segments[0].0 == pipeline.segments@[0].command@);
            }
        }
        assert(!is_passthrough(command@, d));
        let cmd_len = chars_of(command).len();
        let mut strictest = Decision::Allow;
        let mut lines: Vec<String> = Vec::new();
        assert(views(lines@) =~= Seq::<Seq<char>>::empty());
        let mut k: usize = 0;
        while k < substitutions.len()
            invariant
                k <= substitutions.len(),
                cmd_len == command@.len(),
                d == decomp_of(*pipeline, *substitutions),
                (strictest, views(lines@)) == subst_results(self@, command@, d.substitutions, k as nat),
            decreases substitutions.len() - k,
        {
            let inner = substitutions[k].as_str();
            assert(d.substitutions[k as int] == inner@);
            let inner_len = chars_of(inner).len();
            let res = if inner_len < cmd_len { self.evaluate(inner) } else { self.evaluate_single(inner) };
            let label = prefix_chars(trim_str(inner).as_str(), 60);
            let head = concat3("  subst[$(", label.as_str(), ")] -> ");
            let tail = concat2(": ", res.reason.as_str());
            let line = concat3(head.as_str(), res.decision.label(), tail.as_str());
            assert(subst_verdict(self@, command@, inner@) == (res.decision, res.reason@));
            assert(line@ =~= subst_line(inner@, (res.decision, res.reason@)));
            strictest = strictest.max_with(res.decision);
            let ghost before = lines@;
            lines.push(line);
            assert(views(lines@) =~= views(before).push(line@));
            k = k + 1;
        }
        let ghost sd = strictest;
        let ghost slines = views(lines@);
        let mut acc: NameMap<String> = NameMap::new();
        let mut executes = true;
        let mut i: usize = 0;
        assert(env_view(acc) =~= Seq::<(Seq<char>, Seq<char>)>::empty());
        assert(slines + Seq::<Seq<char>>::empty() =~= slines);
        while i < nseg
            invariant
                i <= nseg,
                nseg == pipeline.segments.len(),
                d == decomp_of(*pipeline, *substitutions),
                ops_ok(d),
                ({
                    let st = seg_results(self@, d.segments, d.operators, i as int);
                    &&& strictest == stricter(sd, st.strictest)
                    &&& views(lines@) == slines + st.lines
                    &&& env_view(acc) == st.env
                    &&& executes == st.executes
                }),
            decreases nseg - i,
        {
            let ghost st = seg_results(self@, d.segments, d.operators, i as int);
            assert(d.segments[i as int] == (pipeline.segments@[i as int].command@,
                crate::types::redir_view(pipeline.segments@[i as int].redirection)));
            if i > 0 {
                assert(d.segments[i - 1] == (pipeline.segments@[i - 1].command@,
                    crate::types::redir_view(pipeline.segments@[i - 1].redirection)));
                match pipeline.operators[i - 1] {
                    Operator::Semi => {
                        executes = true;
                    },
                    Operator::And => {
                        executes = executes && is_likely_successful(pipeline.segments[i - 1].command.as_str());
                    },
                    _ => {
                        executes = false;
                        acc.clear();
                        assert(env_view(acc) =~= Seq::<(Seq<char>, Seq<char>)>::empty());
                    },
                }
            }
            assert((executes, env_view(acc)) == seg_entry(d.segments, d.operators, st, i as int));
            let ghost env1 = env_view(acc);
            let seg = &pipeline.segments[i];
            let res = self.evaluate_single_with_env(seg.command.as_str(), &acc);
            if executes {
                let pairs = extract_segment_env(seg.command.as_str());
                let ghost pv = pairs@.map_values(|p: (String, String)| (p.0@, p.1@));
                let mut j: usize = 0;
                while j < pairs.len()
                    invariant
                        j <= pairs.len(),
                        pv == pairs@.map_values(|p: (String, String)| (p.0@, p.1@)),
                        env_view(acc) == put_pairs(env1, pv.take(j as int)),
                    decreases pairs.len() - j,
                {
                    assert(pv.take(j + 1).drop_last() == pv.take(j as int));
                    assert(pv.take(j + 1).last() == (pairs@[j as int].0@, pairs@[j as int].1@));
                    acc.insert_str(pairs[j].0.clone(), pairs[j].1.clone());
                    j = j + 1;
                }
                assert(pv.take(pairs.len() as int) == pv);
                let ghost env_set = env_view(acc);
                let unsets = extract_unset_vars(seg.command.as_str());
                let mut u: usize = 0;
                while u < unsets.len()
                    invariant
                        u <= unsets.len(),
                        env_view(acc) == remove_all(env_set, views(unsets@).take(u as int)),
                    decreases unsets.len() - u,
                {
                    assert(views(unsets@).take(u + 1).drop_last() == views(unsets@).take(u as int));
                    assert(views(unsets@).take(u + 1).last() == unsets@[u as int]@);
                    acc.remove_str(unsets[u].as_str());
                    u = u + 1;
                }
                assert(views(unsets@).take(unsets.len() as int) == views(unsets@));
            }
            assert(env_view(acc) == seg_results(self@, d.segments, d.operators, i + 1).env);
            let verdict = match &seg.redirection {
                Some(r) => {
                    if res.decision == Decision::Allow {
                        let reason = concat3(
                            concat2(res.reason.as_str(), " (escalated: wrapping ").as_str(),
                            r.description.as_str(),
                            ")",
                        );
                        RuleMatch { decision: Decision::Ask, reason }
                    } else {
                        res
                    }
                },
                None => res,
            };
            let label = prefix_chars(trim_str(seg.command.as_str()).as_str(), 60);
            let head = concat3("  [", label.as_str(), "] -> ");
            let tail = concat2(": ", verdict.reason.as_str());
            let line = concat3(head.as_str(), verdict.decision.label(), tail.as_str());
            assert((verdict.decision, verdict.reason@) == seg_verdict(self@, d.segments[i as int], env1));
            assert(line@ =~= seg_line(d.segments[i as int].0, (verdict.decision, verdict.reason@)));
            proof { lemma_stricter_assoc(sd, st.strictest, verdict.decision); }
            strictest = strictest.max_with(verdict.decision);
            let ghost before = lines@;
            lines.push(line);
            assert(views(lines@) =~= views(before).push(line@));
            i = i + 1;
        }
        let header = summary_line(&pipeline.operators, substitutions.len());
        let body = join_strings(&lines, "\n");
        RuleMatch { decision: strictest, reason: concat3(header.as_str(), ":\n", body.as_str()) }
    }

    /// Evaluates the command line `command`: parses it as bash and judges
    /// its substitutions and segments.
    pub fn evaluate(&self, command: &str) -> (r: RuleMatch)
        ensures
            (r.decision, r.reason@) == eval_full(self@, command@),
            keeps_operators(command@, bash_tree(command@)) ==> (r.decision, r.reason@)
                == eval_parsed(self@, command@, decomposition(command@, bash_tree(command@))),
        decreases command@.len(), 1nat,
    {
        let (pipeline, subs) = parse_with_substitutions(command);
        let n = pipeline.segments.len();
        if n > 0 && pipeline.operators.len() < n - 1 {
            return RuleMatch {
                decision: Decision::Ask,
                reason: String::from_str("command structure could not be decomposed"),
            };
        }
        assert(decomp_of(pipeline, subs) == decomposition(command@, bash_tree(command@)));
        self.evaluate_parsed(command, &pipeline, &subs)
    }
}

} // verus!
