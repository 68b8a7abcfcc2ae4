//! Properties of the evaluation that hold for every configuration and
//! every command.

use vstd::prelude::*;
use crate::config::{ConfigModel, ConfigOverlay, applied};
use crate::cargo::{CargoRules, cargo_rule};
use crate::gh::{GhRules, gh_rule, gh_sub_one, gh_sub_two};
use crate::kubectl::{KubectlRules, kubectl_rule};
use crate::names::env_view;
use crate::rules::tool_subcommand;
use crate::context::{Ctx, has_word, env_holds};
use crate::decision::{Decision, rank, stricter};
use crate::eval::{RegistryModel, Rule, eval_single, eval_parsed, eval_full, subst_results, subst_verdict, seg_results, seg_entry, seg_verdict, specs_of, registry_of, put_all, remove_all, escalated, is_passthrough, ops_ok};
use crate::git::{GitRules, git_rule, git_subcommand};
use crate::names::{lookup, put, law_lookup_put_same, law_lookup_put_other, law_lookup_without_same, law_lookup_without_other};
use crate::rules::any_flag;
use crate::shell::{Decomposition, decomposition};
use crate::syntax::bash_tree;
use crate::text::trim;
use crate::types::Operator;
use crate::words::{words_of, assignment, command_word};

verus! {

// ── Registry construction ──

/// After binding each of `names` to `v`, a listed name has value `v` and
/// any other name keeps its value.
pub proof fn law_lookup_put_all<V>(s: Seq<(Seq<char>, V)>, names: Seq<Seq<char>>, v: V, w: Seq<char>)
    ensures
        lookup(put_all(s, names, v), w) == (if has_word(names, w) { Some(v) } else { lookup(s, w) }),
    decreases names.len(),
{
    if names.len() > 0 {
        let p = names.drop_last();
        law_lookup_put_all(s, p, v, w);
        if names.last() == w {
            law_lookup_put_same(put_all(s, p, v), w, v);
            assert(names[names.len() - 1] == w);
        } else {
            law_lookup_put_other(put_all(s, p, v), names.last(), v, w);
            assert(has_word(names, w) == has_word(p, w)) by {
                if has_word(names, w) {
                    let i = choose|i: int| 0 <= i < names.len() && names[i] == w;
                    assert(p[i] == w);
                }
                if has_word(p, w) {
                    let i = choose|i: int| 0 <= i < p.len() && p[i] == w;
                    assert(names[i] == w);
                }
            }
        }
    } else {
        assert(!has_word(names, w));
    }
}

/// After removing each of `names`, a listed name is gone and any other
/// name keeps its value.
pub proof fn law_lookup_remove_all<V>(s: Seq<(Seq<char>, V)>, names: Seq<Seq<char>>, w: Seq<char>)
    ensures
        lookup(remove_all(s, names), w) == (if has_word(names, w) { None } else { lookup(s, w) }),
    decreases names.len(),
{
    if names.len() > 0 {
        let p = names.drop_last();
        law_lookup_remove_all(s, p, w);
        if names.last() == w {
            law_lookup_without_same(remove_all(s, p), w);
            assert(names[names.len() - 1] == w);
        } else {
            law_lookup_without_other(remove_all(s, p), names.last(), w);
            assert(has_word(names, w) == has_word(p, w)) by {
                if has_word(names, w) {
                    let i = choose|i: int| 0 <= i < names.len() && names[i] == w;
                    assert(p[i] == w);
                }
                if has_word(p, w) {
                    let i = choose|i: int| 0 <= i < p.len() && p[i] == w;
                    assert(names[i] == w);
                }
            }
        }
    } else {
        assert(!has_word(names, w));
    }
}

/// The tool names.
pub open spec fn tool_rule(w: Seq<char>) -> Option<Rule> {
    if w == "gh"@ {
        Some(Rule::Gh)
    } else if w == "kubectl"@ {
        Some(Rule::Kubectl)
    } else if w == "cargo"@ {
        Some(Rule::Cargo)
    } else if w == "git"@ {
        Some(Rule::Git)
    } else {
        None
    }
}

/// How the registry judges a command name: a wrapper name has no command
/// rule; otherwise a tool name gets its tool's rules; otherwise the ask
/// list wins over the allow list, which wins over the deny list.
pub proof fn law_registry_rule(m: ConfigModel, w: Seq<char>)
    ensures
        lookup(specs_of(m), w) == (if has_word(m.allow_floor, w) || has_word(m.ask_floor, w) {
            None
        } else if tool_rule(w) is Some {
            tool_rule(w)
        } else if has_word(m.ask, w) {
            Some(Rule::Simple(Decision::Ask))
        } else if has_word(m.allow, w) {
            Some(Rule::Simple(Decision::Allow))
        } else if has_word(m.deny, w) {
            Some(Rule::Simple(Decision::Deny))
        } else {
            None
        }),
{
    let s_deny = put_all(Seq::empty(), m.deny, Rule::Simple(Decision::Deny));
    let s_allow = put_all(s_deny, m.allow, Rule::Simple(Decision::Allow));
    let s0 = put_all(s_allow, m.ask, Rule::Simple(Decision::Ask));
    law_lookup_put_all(Seq::<(Seq<char>, Rule)>::empty(), m.deny, Rule::Simple(Decision::Deny), w);
    law_lookup_put_all(s_deny, m.allow, Rule::Simple(Decision::Allow), w);
    law_lookup_put_all(s_allow, m.ask, Rule::Simple(Decision::Ask), w);
    let g1 = put(s0, "git"@, Rule::Git);
    let g2 = put(g1, "cargo"@, Rule::Cargo);
    let g3 = put(g2, "kubectl"@, Rule::Kubectl);
    let s1 = put(g3, "gh"@, Rule::Gh);
    if w == "git"@ { law_lookup_put_same(s0, w, Rule::Git); } else { law_lookup_put_other(s0, "git"@, Rule::Git, w); }
    if w == "cargo"@ { law_lookup_put_same(g1, w, Rule::Cargo); } else { law_lookup_put_other(g1, "cargo"@, Rule::Cargo, w); }
    if w == "kubectl"@ { law_lookup_put_same(g2, w, Rule::Kubectl); } else { law_lookup_put_other(g2, "kubectl"@, Rule::Kubectl, w); }
    if w == "gh"@ { law_lookup_put_same(g3, w, Rule::Gh); } else { law_lookup_put_other(g3, "gh"@, Rule::Gh, w); }
    reveal_strlit("git");
    reveal_strlit("cargo");
    reveal_strlit("kubectl");
    reveal_strlit("gh");
    law_lookup_remove_all(s1, m.allow_floor, w);
    law_lookup_remove_all(remove_all(s1, m.allow_floor), m.ask_floor, w);
    assert(lookup(Seq::<(Seq<char>, Rule)>::empty(), w) is None);
}

/// A wrapper listed with an ASK floor has that floor, even when it is
/// listed with an ALLOW floor too; one listed with an ALLOW floor only has
/// ALLOW.
pub proof fn law_registry_wrapper(m: ConfigModel, w: Seq<char>)
    ensures
        lookup(registry_of(m).wrappers, w) == (if has_word(m.ask_floor, w) {
            Some(Decision::Ask)
        } else if has_word(m.allow_floor, w) {
            Some(Decision::Allow)
        } else {
            None
        }),
{
    let a = put_all(Seq::empty(), m.allow_floor, Decision::Allow);
    law_lookup_put_all(Seq::<(Seq<char>, Decision)>::empty(), m.allow_floor, Decision::Allow, w);
    law_lookup_put_all(a, m.ask_floor, Decision::Ask, w);
    assert(lookup(Seq::<(Seq<char>, Decision)>::empty(), w) is None);
}

// ── Single commands ──

/// With `escalate_deny`, no single command is refused.
pub proof fn law_escalate_single_never_denies(reg: RegistryModel, cmd: Seq<char>, acc: Seq<(Seq<char>, Seq<char>)>)
    requires
        reg.escalate_deny,
    ensures
        eval_single(reg, cmd, acc).0 != Decision::Deny,
{
}

/// A wrapper never yields a decision below its floor (unless its floor is
/// DENY and DENY is escalated).
pub proof fn law_wrapper_floor(reg: RegistryModel, cmd: Seq<char>, acc: Seq<(Seq<char>, Seq<char>)>, floor: Decision)
    requires
        trim(cmd).len() > 0,
        !(words_of(trim(cmd)).len() == 1 && assignment(words_of(trim(cmd))[0]) is Some),
        lookup(reg.wrappers, command_word(words_of(trim(cmd)))) == Some(floor),
        !(reg.escalate_deny && floor == Decision::Deny),
    ensures
        rank(eval_single(reg, cmd, acc).0) >= rank(floor),
{
}

/// The escalation of DENY: every DENY becomes ASK and nothing else
/// changes; an escalated decision is never DENY.
pub proof fn law_escalated(reg: RegistryModel, r: (Decision, Seq<char>))
    ensures
        escalated(reg, r).0 == (if reg.escalate_deny && r.0 == Decision::Deny { Decision::Ask } else { r.0 }),
        reg.escalate_deny ==> escalated(reg, r).0 != Decision::Deny,
{
}

// ── Command lines ──

/// The verdict of segment `i` given the segments before it.
pub open spec fn segment_verdict(reg: RegistryModel, segs: Seq<(Seq<char>, Option<Seq<char>>)>, ops: Seq<Operator>, i: int)
    -> (Decision, Seq<char>)
{
    seg_verdict(reg, segs[i], seg_entry(segs, ops, seg_results(reg, segs, ops, i), i).1)
}

proof fn lemma_seg_strictest(reg: RegistryModel, segs: Seq<(Seq<char>, Option<Seq<char>>)>, ops: Seq<Operator>, n: int, i: int)
    requires
        0 <= i < n,
    ensures
        rank(seg_results(reg, segs, ops, n).strictest) >= rank(segment_verdict(reg, segs, ops, i).0),
    decreases n,
{
    if i < n - 1 {
        lemma_seg_strictest(reg, segs, ops, n - 1, i);
    }
}

proof fn lemma_subst_strictest(reg: RegistryModel, cmd: Seq<char>, subs: Seq<Seq<char>>, n: nat, j: int)
    requires
        0 <= j < n <= subs.len(),
    ensures
        rank(subst_results(reg, cmd, subs, n).0) >= rank(subst_verdict(reg, cmd, subs[j]).0),
    decreases n,
{
    if j < n - 1 {
        lemma_subst_strictest(reg, cmd, subs, (n - 1) as nat, j);
    }
}

/// The strictest part wins: a compound command line is judged at least as
/// strictly as each of its segments and each of its substitutions (so it
/// is allowed only when every part is).
pub proof fn law_strictest_wins(reg: RegistryModel, cmd: Seq<char>, d: Decomposition)
    requires
        !is_passthrough(cmd, d),
    ensures
        forall|i: int| 0 <= i < d.segments.len() ==>
            rank(eval_parsed(reg, cmd, d).0) >= rank(#[trigger] segment_verdict(reg, d.segments, d.operators, i).0),
        forall|j: int| 0 <= j < d.substitutions.len() ==>
            rank(eval_parsed(reg, cmd, d).0) >= rank(#[trigger] subst_verdict(reg, cmd, d.substitutions[j]).0),
{
    assert forall|i: int| 0 <= i < d.segments.len() implies
        rank(eval_parsed(reg, cmd, d).0) >= rank(#[trigger] segment_verdict(reg, d.segments, d.operators, i).0) by {
        lemma_seg_strictest(reg, d.segments, d.operators, d.segments.len() as int, i);
    }
    assert forall|j: int| 0 <= j < d.substitutions.len() implies
        rank(eval_parsed(reg, cmd, d).0) >= rank(#[trigger] subst_verdict(reg, cmd, d.substitutions[j]).0) by {
        lemma_subst_strictest(reg, cmd, d.substitutions, d.substitutions.len(), j);
    }
}

/// A segment whose output a wrapping construct redirects is never allowed
/// silently.
pub proof fn law_redirected_segment_not_allowed(reg: RegistryModel, seg: (Seq<char>, Option<Seq<char>>), env: Seq<(Seq<char>, Seq<char>)>)
    requires
        seg.1 is Some,
    ensures
        seg_verdict(reg, seg, env).0 != Decision::Allow,
{
}

/// After `||`, `|` or `|&` the next segment sees no variable set by the
/// segments before it and is not counted as having run; after `;` it sees
/// all of them.
pub proof fn law_env_passing(reg: RegistryModel, segs: Seq<(Seq<char>, Option<Seq<char>>)>, ops: Seq<Operator>, i: int)
    requires
        0 < i <= ops.len(),
    ensures
        (ops[i - 1] == Operator::Or || ops[i - 1] == Operator::Pipe || ops[i - 1] == Operator::PipeErr) ==>
            seg_entry(segs, ops, seg_results(reg, segs, ops, i), i) == (false, Seq::<(Seq<char>, Seq<char>)>::empty()),
        ops[i - 1] == Operator::Semi ==>
            seg_entry(segs, ops, seg_results(reg, segs, ops, i), i) == (true, seg_results(reg, segs, ops, i).env),
{
}

proof fn lemma_seg_no_deny(reg: RegistryModel, segs: Seq<(Seq<char>, Option<Seq<char>>)>, ops: Seq<Operator>, n: int)
    requires
        reg.escalate_deny,
    ensures
        seg_results(reg, segs, ops, n).strictest != Decision::Deny,
    decreases n,
{
    if n > 0 {
        lemma_seg_no_deny(reg, segs, ops, n - 1);
        let st = seg_results(reg, segs, ops, n - 1);
        let env1 = seg_entry(segs, ops, st, n - 1).1;
        law_escalate_single_never_denies(reg, segs[n - 1].0, env1);
    }
}

proof fn lemma_subst_no_deny(reg: RegistryModel, cmd: Seq<char>, subs: Seq<Seq<char>>, n: nat)
    requires
        reg.escalate_deny,
    ensures
        subst_results(reg, cmd, subs, n).0 != Decision::Deny,
    decreases cmd.len(), n,
{
    if n > 0 && n <= subs.len() {
        lemma_subst_no_deny(reg, cmd, subs, (n - 1) as nat);
        let inner = subs[n - 1];
        if inner.len() < cmd.len() {
            law_escalate_never_denies(reg, inner);
            assert(subst_verdict(reg, cmd, inner) == eval_full(reg, inner));
        } else {
            law_escalate_single_never_denies(reg, inner, Seq::empty());
            assert(subst_verdict(reg, cmd, inner) == eval_single(reg, inner, Seq::empty()));
        }
    }
}

/// With `escalate_deny`, no command line is refused: every DENY, of a
/// segment or of a substitution, becomes ASK.
pub proof fn law_escalate_never_denies(reg: RegistryModel, cmd: Seq<char>)
    requires
        reg.escalate_deny,
    ensures
        eval_full(reg, cmd).0 != Decision::Deny,
    decreases cmd.len(),
{
    let d = decomposition(cmd, bash_tree(cmd));
    if ops_ok(d) {
        if is_passthrough(cmd, d) {
            law_escalate_single_never_denies(reg, cmd, Seq::empty());
        } else {
            lemma_subst_no_deny(reg, cmd, d.substitutions, d.substitutions.len());
            lemma_seg_no_deny(reg, d.segments, d.operators, d.segments.len() as int);
        }
    }
}

// ── Git ──

/// A force-push is never allowed, whatever the variables.
pub proof fn law_git_force_push_asks(g: GitRules, c: Ctx)
    requires
        git_subcommand(c.words) == "push"@,
        any_flag(c, g.force_push_flags),
    ensures
        git_rule(g, c).0 == Decision::Ask,
{
}

/// A variable-gated git subcommand (not read-only) is allowed only when
/// variables are required and every one has its required value.
pub proof fn law_git_gate(g: GitRules, c: Ctx)
    requires
        has_word(g.allowed_with_config, git_subcommand(c.words)),
        !has_word(g.read_only, git_subcommand(c.words)),
        git_rule(g, c).0 == Decision::Allow,
    ensures
        g.config_env.len() > 0,
        env_holds(c, g.config_env),
{
}

// ── Escalation changes nothing but DENY ──

/// DENY turned into ASK.
pub open spec fn esc(d: Decision) -> Decision {
    if d == Decision::Deny { Decision::Ask } else { d }
}

/// The registry with DENY escalation set to `e`.
pub open spec fn with_escalation(reg: RegistryModel, e: bool) -> RegistryModel {
    RegistryModel { escalate_deny: e, ..reg }
}

proof fn lemma_esc_stricter(a: Decision, b: Decision)
    ensures
        stricter(esc(a), esc(b)) == esc(stricter(a, b)),
{
}

/// Turning on `escalate_deny` turns the DENY of a single command into ASK
/// and leaves every other decision as it was.
pub proof fn law_escalation_single(reg: RegistryModel, cmd: Seq<char>, acc: Seq<(Seq<char>, Seq<char>)>)
    ensures
        eval_single(with_escalation(reg, true), cmd, acc).0 == esc(eval_single(with_escalation(reg, false), cmd, acc).0),
    decreases cmd.len(),
{
    let rt = with_escalation(reg, true);
    let rf = with_escalation(reg, false);
    let c = trim(cmd);
    if c.len() > 0 && !(words_of(c).len() == 1 && assignment(words_of(c)[0]) is Some) {
        let ctx = crate::context::context_of(c, acc, reg.process_env);
        if lookup(reg.wrappers, ctx.base) is Some {
            let wrapped = crate::eval::wrapped_command(ctx);
            if wrapped.len() > 0 {
                crate::eval::lemma_wrapped_shorter(c, ctx);
                crate::text::lemma_trim_len(cmd);
                let inner_env = if ctx.base == "env"@ && (has_word(ctx.words, "-i"@) || has_word(ctx.words, "-"@)) {
                    Seq::empty()
                } else {
                    acc
                };
                law_escalation_single(reg, wrapped, inner_env);
                let floor = lookup(reg.wrappers, ctx.base)->0;
                lemma_esc_stricter(floor, eval_single(rf, wrapped, inner_env).0);
            }
        }
    }
}

proof fn lemma_escalation_segs(reg: RegistryModel, segs: Seq<(Seq<char>, Option<Seq<char>>)>, ops: Seq<Operator>, n: int)
    ensures
        seg_results(with_escalation(reg, true), segs, ops, n).strictest
            == esc(seg_results(with_escalation(reg, false), segs, ops, n).strictest),
        seg_results(with_escalation(reg, true), segs, ops, n).env == seg_results(with_escalation(reg, false), segs, ops, n).env,
        seg_results(with_escalation(reg, true), segs, ops, n).executes
            == seg_results(with_escalation(reg, false), segs, ops, n).executes,
    decreases n,
{
    if n > 0 {
        lemma_escalation_segs(reg, segs, ops, n - 1);
        let rt = with_escalation(reg, true);
        let rf = with_escalation(reg, false);
        let st_t = seg_results(rt, segs, ops, n - 1);
        let st_f = seg_results(rf, segs, ops, n - 1);
        assert(seg_entry(segs, ops, st_t, n - 1) == seg_entry(segs, ops, st_f, n - 1));
        let env1 = seg_entry(segs, ops, st_f, n - 1).1;
        law_escalation_single(reg, segs[n - 1].0, env1);
        lemma_esc_stricter(st_f.strictest, seg_verdict(rf, segs[n - 1], env1).0);
    }
}

proof fn lemma_escalation_substs(reg: RegistryModel, cmd: Seq<char>, subs: Seq<Seq<char>>, n: nat)
    ensures
        subst_results(with_escalation(reg, true), cmd, subs, n).0
            == esc(subst_results(with_escalation(reg, false), cmd, subs, n).0),
    decreases cmd.len(), n,
{
    if n > 0 && n <= subs.len() {
        lemma_escalation_substs(reg, cmd, subs, (n - 1) as nat);
        let rt = with_escalation(reg, true);
        let rf = with_escalation(reg, false);
        let inner = subs[n - 1];
        if inner.len() < cmd.len() {
            law_escalation(reg, inner);
            assert(subst_verdict(rt, cmd, inner) == eval_full(rt, inner));
            assert(subst_verdict(rf, cmd, inner) == eval_full(rf, inner));
        } else {
            law_escalation_single(reg, inner, Seq::empty());
            assert(subst_verdict(rt, cmd, inner) == eval_single(rt, inner, Seq::empty()));
            assert(subst_verdict(rf, cmd, inner) == eval_single(rf, inner, Seq::empty()));
        }
        lemma_esc_stricter(subst_results(rf, cmd, subs, (n - 1) as nat).0, subst_verdict(rf, cmd, inner).0);
    }
}

/// Turning on `escalate_deny` turns the DENY of a command line into ASK
/// and leaves every other decision as it was.
pub proof fn law_escalation(reg: RegistryModel, cmd: Seq<char>)
    ensures
        eval_full(with_escalation(reg, true), cmd).0 == esc(eval_full(with_escalation(reg, false), cmd).0),
    decreases cmd.len(),
{
    let d = decomposition(cmd, bash_tree(cmd));
    if ops_ok(d) {
        if is_passthrough(cmd, d) {
            law_escalation_single(reg, cmd, Seq::empty());
        } else {
            lemma_escalation_substs(reg, cmd, d.substitutions, d.substitutions.len());
            lemma_escalation_segs(reg, d.segments, d.operators, d.segments.len() as int);
            let rf = with_escalation(reg, false);
            lemma_esc_stricter(
                subst_results(rf, cmd, d.substitutions, d.substitutions.len()).0,
                seg_results(rf, d.segments, d.operators, d.segments.len() as int).strictest,
            );
        }
    }
}

// ── Plain lists and unknown commands ──

/// A command whose name has no rule (not even by the part before its first
/// dot) and is no wrapper needs confirmation.
pub proof fn law_unrecognized_asks(reg: RegistryModel, cmd: Seq<char>, acc: Seq<(Seq<char>, Seq<char>)>)
    requires
        trim(cmd).len() > 0,
        !(words_of(trim(cmd)).len() == 1 && assignment(words_of(trim(cmd))[0]) is Some),
        lookup(reg.wrappers, command_word(words_of(trim(cmd)))) is None,
        lookup(reg.specs, command_word(words_of(trim(cmd)))) is None,
        lookup(reg.specs, crate::eval::before_dot(command_word(words_of(trim(cmd))))) is None,
    ensures
        eval_single(reg, cmd, acc).0 == Decision::Ask,
{
}

/// A command on the deny list is refused, or asked about when DENY is
/// escalated.
pub proof fn law_denied_command(reg: RegistryModel, cmd: Seq<char>, acc: Seq<(Seq<char>, Seq<char>)>)
    requires
        trim(cmd).len() > 0,
        !(words_of(trim(cmd)).len() == 1 && assignment(words_of(trim(cmd))[0]) is Some),
        lookup(reg.wrappers, command_word(words_of(trim(cmd)))) is None,
        lookup(reg.specs, command_word(words_of(trim(cmd)))) == Some(Rule::Simple(Decision::Deny)),
    ensures
        eval_single(reg, cmd, acc).0 == (if reg.escalate_deny { Decision::Ask } else { Decision::Deny }),
{
}

/// A wrapper is judged at least as strictly as the command it wraps
/// (which sees no earlier variables after `env -i` or `env -`).
pub proof fn law_wrapper_covers_wrapped(reg: RegistryModel, cmd: Seq<char>, acc: Seq<(Seq<char>, Seq<char>)>)
    requires
        trim(cmd).len() > 0,
        !(words_of(trim(cmd)).len() == 1 && assignment(words_of(trim(cmd))[0]) is Some),
        lookup(reg.wrappers, command_word(words_of(trim(cmd)))) is Some,
        crate::eval::wrapped_command(crate::context::context_of(trim(cmd), acc, reg.process_env)).len() > 0,
    ensures
        ({
            let ctx = crate::context::context_of(trim(cmd), acc, reg.process_env);
            let inner_env = if ctx.base == "env"@ && (has_word(ctx.words, "-i"@) || has_word(ctx.words, "-"@)) {
                Seq::empty()
            } else {
                acc
            };
            rank(eval_single(reg, cmd, acc).0) >= rank(eval_single(reg, crate::eval::wrapped_command(ctx), inner_env).0)
        }),
{
    let c = trim(cmd);
    let ctx = crate::context::context_of(c, acc, reg.process_env);
    let inner_env = if ctx.base == "env"@ && (has_word(ctx.words, "-i"@) || has_word(ctx.words, "-"@)) {
        Seq::empty()
    } else {
        acc
    };
    if reg.escalate_deny {
        law_escalate_single_never_denies(reg, crate::eval::wrapped_command(ctx), inner_env);
    }
}

proof fn lemma_seg_strictest_attained(reg: RegistryModel, segs: Seq<(Seq<char>, Option<Seq<char>>)>, ops: Seq<Operator>, n: int)
    ensures
        seg_results(reg, segs, ops, n).strictest == Decision::Allow
            || exists|i: int| 0 <= i < n && #[trigger] segment_verdict(reg, segs, ops, i).0 == seg_results(reg, segs, ops, n).strictest,
    decreases n,
{
    if n > 0 {
        lemma_seg_strictest_attained(reg, segs, ops, n - 1);
        let prev = seg_results(reg, segs, ops, n - 1).strictest;
        let v = segment_verdict(reg, segs, ops, n - 1).0;
        if seg_results(reg, segs, ops, n).strictest != v && prev != Decision::Allow {
            let i = choose|i: int| 0 <= i < n - 1 && #[trigger] segment_verdict(reg, segs, ops, i).0 == prev;
            assert(segment_verdict(reg, segs, ops, i).0 == seg_results(reg, segs, ops, n).strictest);
        }
    }
}

proof fn lemma_subst_strictest_attained(reg: RegistryModel, cmd: Seq<char>, subs: Seq<Seq<char>>, n: nat)
    requires
        n <= subs.len(),
    ensures
        subst_results(reg, cmd, subs, n).0 == Decision::Allow
            || exists|j: int| 0 <= j < n && #[trigger] subst_verdict(reg, cmd, subs[j]).0 == subst_results(reg, cmd, subs, n).0,
    decreases n,
{
    if n > 0 {
        lemma_subst_strictest_attained(reg, cmd, subs, (n - 1) as nat);
        let prev = subst_results(reg, cmd, subs, (n - 1) as nat).0;
        let v = subst_verdict(reg, cmd, subs[n - 1]).0;
        if subst_results(reg, cmd, subs, n).0 != v && prev != Decision::Allow {
            let j = choose|j: int| 0 <= j < n - 1 && #[trigger] subst_verdict(reg, cmd, subs[j]).0 == prev;
            assert(subst_verdict(reg, cmd, subs[j]).0 == subst_results(reg, cmd, subs, n).0);
        }
    }
}

/// The decision of a compound command line is exactly the strictest of its
/// parts: ALLOW when it has none, else the decision of one of its segments
/// or substitutions (and it is at least as strict as each of them, by
/// `law_strictest_wins`).
pub proof fn law_strictest_attained(reg: RegistryModel, cmd: Seq<char>, d: Decomposition)
    requires
        !is_passthrough(cmd, d),
    ensures
        eval_parsed(reg, cmd, d).0 == Decision::Allow
            || (exists|i: int| 0 <= i < d.segments.len()
                && #[trigger] segment_verdict(reg, d.segments, d.operators, i).0 == eval_parsed(reg, cmd, d).0)
            || (exists|j: int| 0 <= j < d.substitutions.len()
                && #[trigger] subst_verdict(reg, cmd, d.substitutions[j]).0 == eval_parsed(reg, cmd, d).0),
{
    lemma_seg_strictest_attained(reg, d.segments, d.operators, d.segments.len() as int);
    lemma_subst_strictest_attained(reg, cmd, d.substitutions, d.substitutions.len());
}

/// The decision of a wrapper call: the stricter of the wrapper's floor and
/// the wrapped command's decision (the floor alone when nothing is
/// wrapped), ASK instead of ALLOW when the call redirects its output, and
/// ASK instead of DENY when DENY is escalated.
pub proof fn law_wrapper_decision(reg: RegistryModel, cmd: Seq<char>, acc: Seq<(Seq<char>, Seq<char>)>)
    requires
        trim(cmd).len() > 0,
        !(words_of(trim(cmd)).len() == 1 && assignment(words_of(trim(cmd))[0]) is Some),
        lookup(reg.wrappers, command_word(words_of(trim(cmd)))) is Some,
    ensures
        ({
            let ctx = crate::context::context_of(trim(cmd), acc, reg.process_env);
            let floor = lookup(reg.wrappers, ctx.base)->0;
            let wrapped = crate::eval::wrapped_command(ctx);
            let inner_env = if ctx.base == "env"@ && (has_word(ctx.words, "-i"@) || has_word(ctx.words, "-"@)) {
                Seq::empty()
            } else {
                acc
            };
            let m = if wrapped.len() > 0 { stricter(floor, eval_single(reg, wrapped, inner_env).0) } else { floor };
            let m2 = if m == Decision::Allow && ctx.redir is Some { Decision::Ask } else { m };
            eval_single(reg, cmd, acc).0 == (if reg.escalate_deny && m2 == Decision::Deny { Decision::Ask } else { m2 })
        }),
{
}

// ── Output redirection on tool commands ──

/// The command `c` without its own output redirection.
pub open spec fn unredirected(c: Ctx) -> Ctx {
    Ctx { redir: None, ..c }
}

/// `git --version` with at most two other words.
pub open spec fn git_version_query(c: Ctx) -> bool {
    has_word(c.words, "--version"@) && c.words.len() <= 3
}

/// `cargo --version` or `cargo -V`.
pub open spec fn cargo_version_query(c: Ctx) -> bool {
    has_word(c.words, "--version"@) || has_word(c.words, "-V"@)
}

/// A git command that writes its output to a file is never allowed
/// silently (read-only and variable-gated subcommands alike); only the
/// version query is exempt.
pub proof fn law_git_redirected_asks(g: GitRules, c: Ctx)
    requires
        c.redir is Some,
        !git_version_query(c),
    ensures
        git_rule(g, c).0 == Decision::Ask,
{
}

/// Outside the version query, redirection changes a git decision only by
/// turning ALLOW into ASK; every other decision is the one the same command
/// gets without redirection.
pub proof fn law_git_redirection_only_raises(g: GitRules, c: Ctx)
    requires
        !git_version_query(c),
    ensures
        git_rule(g, c).0 == (if c.redir is Some && git_rule(g, unredirected(c)).0 == Decision::Allow {
            Decision::Ask
        } else {
            git_rule(g, unredirected(c)).0
        }),
{
    assert(env_holds(c, g.config_env) == env_holds(unredirected(c), g.config_env));
    assert(any_flag(c, g.force_push_flags) == any_flag(unredirected(c), g.force_push_flags));
}

/// A variable-gated git subcommand (not read-only, not a force-push) with
/// every required variable set and no redirection is allowed.
pub proof fn law_git_gated_allowed(g: GitRules, c: Ctx)
    requires
        has_word(g.allowed_with_config, git_subcommand(c.words)),
        !has_word(g.read_only, git_subcommand(c.words)),
        !(git_subcommand(c.words) == "push"@ && any_flag(c, g.force_push_flags)),
        g.config_env.len() > 0,
        env_holds(c, g.config_env),
        c.redir is None,
    ensures
        git_rule(g, c).0 == Decision::Allow,
{
}

/// A cargo command that writes its output to a file is never allowed
/// silently (safe and variable-gated subcommands alike); only the version
/// query is exempt.
pub proof fn law_cargo_redirected_asks(g: CargoRules, c: Ctx)
    requires
        c.redir is Some,
        !cargo_version_query(c),
    ensures
        cargo_rule(g, c).0 == Decision::Ask,
{
}

/// Outside the version query, redirection changes a cargo decision only by
/// turning ALLOW into ASK.
pub proof fn law_cargo_redirection_only_raises(g: CargoRules, c: Ctx)
    requires
        !cargo_version_query(c),
    ensures
        cargo_rule(g, c).0 == (if c.redir is Some && cargo_rule(g, unredirected(c)).0 == Decision::Allow {
            Decision::Ask
        } else {
            cargo_rule(g, unredirected(c)).0
        }),
{
    assert(env_holds(c, g.config_env) == env_holds(unredirected(c), g.config_env));
}

/// A variable-gated cargo subcommand (not a safe one) with every required
/// variable set and no redirection is allowed.
pub proof fn law_cargo_gated_allowed(g: CargoRules, c: Ctx)
    requires
        has_word(g.allowed_with_config, tool_subcommand(c.words, "cargo"@)),
        !has_word(g.safe_subcommands, tool_subcommand(c.words, "cargo"@)),
        g.config_env.len() > 0,
        env_holds(c, g.config_env),
        c.redir is None,
    ensures
        cargo_rule(g, c).0 == Decision::Allow,
{
}

/// A kubectl command that writes its output to a file is never allowed
/// silently.
pub proof fn law_kubectl_redirected_asks(g: KubectlRules, c: Ctx)
    requires
        c.redir is Some,
    ensures
        kubectl_rule(g, c).0 == Decision::Ask,
{
}

/// Redirection changes a kubectl decision only by turning ALLOW into ASK.
pub proof fn law_kubectl_redirection_only_raises(g: KubectlRules, c: Ctx)
    ensures
        kubectl_rule(g, c).0 == (if c.redir is Some && kubectl_rule(g, unredirected(c)).0 == Decision::Allow {
            Decision::Ask
        } else {
            kubectl_rule(g, unredirected(c)).0
        }),
{
    assert(env_holds(c, g.config_env) == env_holds(unredirected(c), g.config_env));
}

/// A variable-gated kubectl subcommand (not read-only) with every required
/// variable set and no redirection is allowed.
pub proof fn law_kubectl_gated_allowed(g: KubectlRules, c: Ctx)
    requires
        has_word(g.allowed_with_config, tool_subcommand(c.words, "kubectl"@)),
        !has_word(g.read_only, tool_subcommand(c.words, "kubectl"@)),
        g.config_env.len() > 0,
        env_holds(c, g.config_env),
        c.redir is None,
    ensures
        kubectl_rule(g, c).0 == Decision::Allow,
{
}

/// A gh command that writes its output to a file is never allowed
/// silently.
pub proof fn law_gh_redirected_asks(g: GhRules, c: Ctx)
    requires
        c.redir is Some,
    ensures
        gh_rule(g, c).0 == Decision::Ask,
{
}

/// Redirection changes a gh decision only by turning ALLOW into ASK.
pub proof fn law_gh_redirection_only_raises(g: GhRules, c: Ctx)
    ensures
        gh_rule(g, c).0 == (if c.redir is Some && gh_rule(g, unredirected(c)).0 == Decision::Allow {
            Decision::Ask
        } else {
            gh_rule(g, unredirected(c)).0
        }),
{
    assert(env_holds(c, g.config_env) == env_holds(unredirected(c), g.config_env));
}

/// A variable-gated gh subcommand (not read-only) with every required
/// variable set and no redirection is allowed.
pub proof fn law_gh_gated_allowed(g: GhRules, c: Ctx)
    requires
        has_word(g.allowed_with_config, gh_sub_two(c.words)) || has_word(g.allowed_with_config, gh_sub_one(c.words)),
        !has_word(g.read_only, gh_sub_two(c.words)),
        !has_word(g.read_only, gh_sub_one(c.words)),
        g.config_env.len() > 0,
        env_holds(c, g.config_env),
        c.redir is None,
    ensures
        gh_rule(g, c).0 == Decision::Allow,
{
}

// ── Overlays ──

/// A variable table given by an overlay replaces the configured one
/// whole; a table the overlay leaves out keeps its configured value. This
/// holds for each of the git, cargo, kubectl and gh tables.
pub proof fn law_overlay_variable_tables(m: ConfigModel, o: ConfigOverlay)
    ensures
        o.git.config_env is Some ==> applied(m, o).git_config_env == env_view(o.git.config_env->0),
        o.git.config_env is None ==> applied(m, o).git_config_env == m.git_config_env,
        o.cargo.config_env is Some ==> applied(m, o).cargo_config_env == env_view(o.cargo.config_env->0),
        o.cargo.config_env is None ==> applied(m, o).cargo_config_env == m.cargo_config_env,
        o.kubectl.config_env is Some ==> applied(m, o).kubectl_config_env == env_view(o.kubectl.config_env->0),
        o.kubectl.config_env is None ==> applied(m, o).kubectl_config_env == m.kubectl_config_env,
        o.gh.config_env is Some ==> applied(m, o).gh_config_env == env_view(o.gh.config_env->0),
        o.gh.config_env is None ==> applied(m, o).gh_config_env == m.gh_config_env,
{
}

} // verus!
