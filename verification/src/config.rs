//! Configuration and the overlay merge.
//!
//! The defaults come built in. Overlays (the user's, then the project's)
//! merge on top in order, later ones winning: lists extend without
//! duplicates, `remove_<field>` lists subtract first, `replace = true`
//! replaces a section's lists outright, and scalars override when given.

use vstd::prelude::*;
use crate::context::has_word;
use crate::names::{NameMap, env_view};
use crate::rules::listed;
use crate::text::views;
use crate::defaults::default_model;

verus! {

/// Settings that change how decisions are reported.
pub struct Settings {
    /// When true, DENY decisions are turned into ASK.
    pub escalate_deny: bool,
}

/// Plain command names with a fixed decision.
pub struct Commands {
    /// Commands that run silently.
    pub allow: Vec<String>,
    /// Commands that need confirmation.
    pub ask: Vec<String>,
    /// Commands that are refused.
    pub deny: Vec<String>,
}

/// Commands that run their arguments as a command.
pub struct WrapperConfig {
    /// Wrappers whose own floor is ALLOW.
    pub allow_floor: Vec<String>,
    /// Wrappers whose own floor is ASK.
    pub ask_floor: Vec<String>,
}

/// Git subcommand rules.
pub struct GitConfig {
    /// Subcommands that are always allowed.
    pub read_only: Vec<String>,
    /// Subcommands allowed only when every `config_env` variable matches.
    pub allowed_with_config: Vec<String>,
    /// Required variable values for `allowed_with_config`.
    pub config_env: NameMap<String>,
    /// Flags that make a push a force-push.
    pub force_push_flags: Vec<String>,
}

/// Cargo subcommand rules.
pub struct CargoConfig {
    /// Subcommands that are always allowed.
    pub safe_subcommands: Vec<String>,
    /// Subcommands allowed only when every `config_env` variable matches.
    pub allowed_with_config: Vec<String>,
    /// Required variable values for `allowed_with_config`.
    pub config_env: NameMap<String>,
}

/// kubectl subcommand rules.
pub struct KubectlConfig {
    /// Subcommands that are always allowed.
    pub read_only: Vec<String>,
    /// Known mutating subcommands.
    pub mutating: Vec<String>,
    /// Subcommands allowed only when every `config_env` variable matches.
    pub allowed_with_config: Vec<String>,
    /// Required variable values for `allowed_with_config`.
    pub config_env: NameMap<String>,
}

/// GitHub CLI subcommand rules (one- and two-word subcommands).
pub struct GhConfig {
    /// Subcommands that are always allowed.
    pub read_only: Vec<String>,
    /// Known mutating subcommands.
    pub mutating: Vec<String>,
    /// Subcommands allowed only when every `config_env` variable matches.
    pub allowed_with_config: Vec<String>,
    /// Required variable values for `allowed_with_config`.
    pub config_env: NameMap<String>,
}

/// The whole configuration.
pub struct Config {
    /// Global settings.
    pub settings: Settings,
    /// Plain command lists.
    pub commands: Commands,
    /// Wrapper commands.
    pub wrappers: WrapperConfig,
    /// Git rules.
    pub git: GitConfig,
    /// Cargo rules.
    pub cargo: CargoConfig,
    /// kubectl rules.
    pub kubectl: KubectlConfig,
    /// gh rules.
    pub gh: GhConfig,
}

// ── Overlays ──

/// Settings in an overlay: given values override.
pub struct SettingsOverlay {
    pub escalate_deny: Option<bool>,
}

/// Command lists in an overlay.
pub struct CommandsOverlay {
    pub replace: bool,
    pub allow: Vec<String>,
    pub ask: Vec<String>,
    pub deny: Vec<String>,
    pub remove_allow: Vec<String>,
    pub remove_ask: Vec<String>,
    pub remove_deny: Vec<String>,
}

/// Wrapper lists in an overlay.
pub struct WrappersOverlay {
    pub replace: bool,
    pub allow_floor: Vec<String>,
    pub ask_floor: Vec<String>,
    pub remove_allow_floor: Vec<String>,
    pub remove_ask_floor: Vec<String>,
}

/// Git rules in an overlay.
pub struct GitOverlay {
    pub replace: bool,
    pub read_only: Vec<String>,
    pub allowed_with_config: Vec<String>,
    pub config_env: Option<NameMap<String>>,
    pub force_push_flags: Vec<String>,
    pub remove_read_only: Vec<String>,
    pub remove_allowed_with_config: Vec<String>,
    pub remove_force_push_flags: Vec<String>,
}

/// Cargo rules in an overlay.
pub struct CargoOverlay {
    pub replace: bool,
    pub safe_subcommands: Vec<String>,
    pub allowed_with_config: Vec<String>,
    pub config_env: Option<NameMap<String>>,
    pub remove_safe_subcommands: Vec<String>,
    pub remove_allowed_with_config: Vec<String>,
}

/// kubectl rules in an overlay.
pub struct KubectlOverlay {
    pub replace: bool,
    pub read_only: Vec<String>,
    pub mutating: Vec<String>,
    pub allowed_with_config: Vec<String>,
    pub config_env: Option<NameMap<String>>,
    pub remove_read_only: Vec<String>,
    pub remove_mutating: Vec<String>,
    pub remove_allowed_with_config: Vec<String>,
}

/// gh rules in an overlay.
pub struct GhOverlay {
    pub replace: bool,
    pub read_only: Vec<String>,
    pub mutating: Vec<String>,
    pub allowed_with_config: Vec<String>,
    pub config_env: Option<NameMap<String>>,
    pub remove_read_only: Vec<String>,
    pub remove_mutating: Vec<String>,
    pub remove_allowed_with_config: Vec<String>,
}

/// A configuration overlay (a user or project file).
pub struct ConfigOverlay {
    pub settings: SettingsOverlay,
    pub commands: CommandsOverlay,
    pub wrappers: WrappersOverlay,
    pub git: GitOverlay,
    pub cargo: CargoOverlay,
    pub kubectl: KubectlOverlay,
    pub gh: GhOverlay,
}

// ── List merge ──

/// `b` without the items listed in `remove`, in order.
pub open spec fn retained(b: Seq<Seq<char>>, remove: Seq<Seq<char>>) -> Seq<Seq<char>>
    decreases b.len(),
{
    if b.len() == 0 {
        b
    } else {
        let r = retained(b.drop_last(), remove);
        if has_word(remove, b.last()) { r } else { r.push(b.last()) }
    }
}

/// `b` followed by the items of `add` it does not hold yet, in order.
pub open spec fn extended(b: Seq<Seq<char>>, add: Seq<Seq<char>>) -> Seq<Seq<char>>
    decreases add.len(),
{
    if add.len() == 0 {
        b
    } else {
        let r = extended(b, add.drop_last());
        if has_word(r, add.last()) { r } else { r.push(add.last()) }
    }
}

/// The list merge: `add` replaces `b`, or `b` loses `remove` and gains
/// the new items of `add`.
pub open spec fn merged(b: Seq<Seq<char>>, add: Seq<Seq<char>>, remove: Seq<Seq<char>>, replace: bool) -> Seq<Seq<char>> {
    if replace { add } else { extended(retained(b, remove), add) }
}

/// No item occurs twice.
pub open spec fn no_dups(s: Seq<Seq<char>>) -> bool {
    forall|i: int, j: int| 0 <= i < j < s.len() ==> s[i] != s[j]
}

proof fn lemma_has_word_push(s: Seq<Seq<char>>, x: Seq<char>, y: Seq<char>)
    ensures
        has_word(s.push(x), y) == (has_word(s, y) || x == y),
{
    if has_word(s, y) {
        let i = choose|i: int| 0 <= i < s.len() && s[i] == y;
        assert(s.push(x)[i] == y);
    }
    if x == y {
        assert(s.push(x)[s.len() as int] == y);
    }
    if has_word(s.push(x), y) {
        let i = choose|i: int| 0 <= i < s.push(x).len() && s.push(x)[i] == y;
        if i < s.len() {
            assert(s[i] == y);
        }
    }
}

proof fn lemma_retained(b: Seq<Seq<char>>, remove: Seq<Seq<char>>, x: Seq<char>)
    ensures
        has_word(retained(b, remove), x) == (has_word(b, x) && !has_word(remove, x)),
        no_dups(b) ==> no_dups(retained(b, remove)),
    decreases b.len(),
{
    if b.len() > 0 {
        let p = b.drop_last();
        lemma_retained(p, remove, x);
        lemma_retained(p, remove, b.last());
        lemma_has_word_push(p, b.last(), x);
        lemma_has_word_push(retained(p, remove), b.last(), x);
        assert(b == p.push(b.last()));
        if no_dups(b) {
            assert(no_dups(p)) by {
                assert forall|i: int, j: int| 0 <= i < j < p.len() implies p[i] != p[j] by {
                    assert(p[i] == b[i] && p[j] == b[j]);
                }
            }
            if !has_word(remove, b.last()) {
                assert(!has_word(p, b.last())) by {
                    if has_word(p, b.last()) {
                        let i = choose|i: int| 0 <= i < p.len() && p[i] == b.last();
                        assert(b[i] == b[b.len() - 1]);
                    }
                }
                let r = retained(p, remove);
                assert forall|i: int, j: int| 0 <= i < j < r.push(b.last()).len()
                    implies r.push(b.last())[i] != r.push(b.last())[j] by {
                    if j == r.len() {
                        assert(r.push(b.last())[i] == r[i]);
                        if r[i] == b.last() {
                            assert(has_word(r, b.last()));
                        }
                    }
                }
            }
        }
    } else {
        assert(!has_word(b, x));
    }
}

proof fn lemma_extended(b: Seq<Seq<char>>, add: Seq<Seq<char>>, x: Seq<char>)
    ensures
        has_word(extended(b, add), x) == (has_word(b, x) || has_word(add, x)),
        no_dups(b) ==> no_dups(extended(b, add)),
    decreases add.len(),
{
    if add.len() > 0 {
        let p = add.drop_last();
        lemma_extended(b, p, x);
        lemma_extended(b, p, add.last());
        lemma_has_word_push(p, add.last(), x);
        lemma_has_word_push(extended(b, p), add.last(), x);
        assert(add == p.push(add.last()));
        let r = extended(b, p);
        if no_dups(b) && !has_word(r, add.last()) {
            assert forall|i: int, j: int| 0 <= i < j < r.push(add.last()).len()
                implies r.push(add.last())[i] != r.push(add.last())[j] by {
                if j == r.len() {
                    assert(r.push(add.last())[i] == r[i]);
                    if r[i] == add.last() {
                        assert(has_word(r, add.last()));
                    }
                }
            }
        }
    } else {
        assert(!has_word(add, x));
    }
}

/// Merging with `replace` gives exactly the added list.
pub proof fn law_merge_replace(b: Seq<Seq<char>>, add: Seq<Seq<char>>, remove: Seq<Seq<char>>)
    ensures
        merged(b, add, remove, true) == add,
{
}

/// Without `replace`, an item is in the merged list exactly when it was in
/// the base and not removed, or it was added: added items are always
/// present, removed items only when added back, others stay.
pub proof fn law_merge_membership(b: Seq<Seq<char>>, add: Seq<Seq<char>>, remove: Seq<Seq<char>>, x: Seq<char>)
    ensures
        has_word(merged(b, add, remove, false), x)
            == ((has_word(b, x) && !has_word(remove, x)) || has_word(add, x)),
{
    lemma_extended(retained(b, remove), add, x);
    lemma_retained(b, remove, x);
}

/// Without `replace`, a list without duplicates stays without duplicates.
pub proof fn law_merge_no_dups(b: Seq<Seq<char>>, add: Seq<Seq<char>>, remove: Seq<Seq<char>>)
    requires
        no_dups(b),
    ensures
        no_dups(merged(b, add, remove, false)),
{
    lemma_retained(b, remove, Seq::empty());
    lemma_extended(retained(b, remove), add, Seq::empty());
}

/// Merging nothing, removing nothing, leaves the list as it was.
pub proof fn law_merge_empty(b: Seq<Seq<char>>)
    ensures
        merged(b, Seq::empty(), Seq::empty(), false) == b,
    decreases b.len(),
{
    if b.len() > 0 {
        law_merge_empty(b.drop_last());
        assert(!has_word(Seq::<Seq<char>>::empty(), b.last()));
        assert(b.drop_last().push(b.last()) == b);
    }
}

/// Merges `add` into `base`: replaces it when `replace`, else drops the
/// items listed in `remove` and appends the items of `add` not yet present.
pub fn merge_list(base: &mut Vec<String>, add: Vec<String>, remove: &Vec<String>, replace: bool)
    ensures
        views(final(base)@) == merged(views(old(base)@), views(add@), views(remove@), replace),
{
    if replace {
        *base = add;
        return;
    }
    let ghost b = views(base@);
    let mut kept: Vec<String> = Vec::new();
    let mut i: usize = 0;
    while i < base.len()
        invariant
            i <= base.len(),
            b == views(base@),
            views(kept@) == retained(b.take(i as int), views(remove@)),
        decreases base.len() - i,
    {
        assert(b.take(i + 1).drop_last() == b.take(i as int));
        assert(b.take(i + 1).last() == base@[i as int]@);
        if !listed(remove, base[i].as_str()) {
            let item = base[i].clone();
            let ghost before = kept@;
            kept.push(item);
            assert(views(kept@) == views(before).push(item@));
        }
        i = i + 1;
    }
    assert(b.take(base.len() as int) == b);
    let ghost r = views(kept@);
    let ghost a = views(add@);
    let mut j: usize = 0;
    while j < add.len()
        invariant
            j <= add.len(),
            a == views(add@),
            views(kept@) == extended(r, a.take(j as int)),
        decreases add.len() - j,
    {
        assert(a.take(j + 1).drop_last() == a.take(j as int));
        assert(a.take(j + 1).last() == add@[j as int]@);
        if !listed(&kept, add[j].as_str()) {
            let item = add[j].clone();
            let ghost before = kept@;
            kept.push(item);
            assert(views(kept@) == views(before).push(item@));
        }
        j = j + 1;
    }
    assert(a.take(add.len() as int) == a);
    *base = kept;
}

// ── Whole-configuration model ──

/// The configuration as plain values.
pub struct ConfigModel {
    pub escalate_deny: bool,
    pub allow: Seq<Seq<char>>,
    pub ask: Seq<Seq<char>>,
    pub deny: Seq<Seq<char>>,
    pub allow_floor: Seq<Seq<char>>,
    pub ask_floor: Seq<Seq<char>>,
    pub git_read_only: Seq<Seq<char>>,
    pub git_allowed_with_config: Seq<Seq<char>>,
    pub git_config_env: Seq<(Seq<char>, Seq<char>)>,
    pub git_force_push_flags: Seq<Seq<char>>,
    pub cargo_safe_subcommands: Seq<Seq<char>>,
    pub cargo_allowed_with_config: Seq<Seq<char>>,
    pub cargo_config_env: Seq<(Seq<char>, Seq<char>)>,
    pub kubectl_read_only: Seq<Seq<char>>,
    pub kubectl_mutating: Seq<Seq<char>>,
    pub kubectl_allowed_with_config: Seq<Seq<char>>,
    pub kubectl_config_env: Seq<(Seq<char>, Seq<char>)>,
    pub gh_read_only: Seq<Seq<char>>,
    pub gh_mutating: Seq<Seq<char>>,
    pub gh_allowed_with_config: Seq<Seq<char>>,
    pub gh_config_env: Seq<(Seq<char>, Seq<char>)>,
}

/// The plain model of a configuration.
pub open spec fn config_model(c: Config) -> ConfigModel {
    ConfigModel {
        escalate_deny: c.settings.escalate_deny,
        allow: views(c.commands.allow@),
        ask: views(c.commands.ask@),
        deny: views(c.commands.deny@),
        allow_floor: views(c.wrappers.allow_floor@),
        ask_floor: views(c.wrappers.ask_floor@),
        git_read_only: views(c.git.read_only@),
        git_allowed_with_config: views(c.git.allowed_with_config@),
        git_config_env: env_view(c.git.config_env),
        git_force_push_flags: views(c.git.force_push_flags@),
        cargo_safe_subcommands: views(c.cargo.safe_subcommands@),
        cargo_allowed_with_config: views(c.cargo.allowed_with_config@),
        cargo_config_env: env_view(c.cargo.config_env),
        kubectl_read_only: views(c.kubectl.read_only@),
        kubectl_mutating: views(c.kubectl.mutating@),
        kubectl_allowed_with_config: views(c.kubectl.allowed_with_config@),
        kubectl_config_env: env_view(c.kubectl.config_env),
        gh_read_only: views(c.gh.read_only@),
        gh_mutating: views(c.gh.mutating@),
        gh_allowed_with_config: views(c.gh.allowed_with_config@),
        gh_config_env: env_view(c.gh.config_env),
    }
}

/// A replaced variable table, or the old one.
pub open spec fn env_override(o: Option<NameMap<String>>, old: Seq<(Seq<char>, Seq<char>)>) -> Seq<(Seq<char>, Seq<char>)> {
    match o {
        Some(m) => env_view(m),
        None => old,
    }
}

/// The configuration `m` with overlay `o` applied.
pub open spec fn applied(m: ConfigModel, o: ConfigOverlay) -> ConfigModel {
    let c = o.commands;
    let w = o.wrappers;
    let g = o.git;
    let ca = o.cargo;
    let k = o.kubectl;
    let h = o.gh;
    ConfigModel {
        escalate_deny: match o.settings.escalate_deny { Some(v) => v, None => m.escalate_deny },
        allow: merged(m.allow, views(c.allow@), views(c.remove_allow@), c.replace),
        ask: merged(m.ask, views(c.ask@), views(c.remove_ask@), c.replace),
        deny: merged(m.deny, views(c.deny@), views(c.remove_deny@), c.replace),
        allow_floor: merged(m.allow_floor, views(w.allow_floor@), views(w.remove_allow_floor@), w.replace),
        ask_floor: merged(m.ask_floor, views(w.ask_floor@), views(w.remove_ask_floor@), w.replace),
        git_read_only: merged(m.git_read_only, views(g.read_only@), views(g.remove_read_only@), g.replace),
        git_allowed_with_config: merged(m.git_allowed_with_config, views(g.allowed_with_config@),
            views(g.remove_allowed_with_config@), g.replace),
        git_config_env: env_override(g.config_env, m.git_config_env),
        git_force_push_flags: merged(m.git_force_push_flags, views(g.force_push_flags@),
            views(g.remove_force_push_flags@), g.replace),
        cargo_safe_subcommands: merged(m.cargo_safe_subcommands, views(ca.safe_subcommands@),
            views(ca.remove_safe_subcommands@), ca.replace),
        cargo_allowed_with_config: merged(m.cargo_allowed_with_config, views(ca.allowed_with_config@),
            views(ca.remove_allowed_with_config@), ca.replace),
        cargo_config_env: env_override(ca.config_env, m.cargo_config_env),
        kubectl_read_only: merged(m.kubectl_read_only, views(k.read_only@), views(k.remove_read_only@), k.replace),
        kubectl_mutating: merged(m.kubectl_mutating, views(k.mutating@), views(k.remove_mutating@), k.replace),
        kubectl_allowed_with_config: merged(m.kubectl_allowed_with_config, views(k.allowed_with_config@),
            views(k.remove_allowed_with_config@), k.replace),
        kubectl_config_env: env_override(k.config_env, m.kubectl_config_env),
        gh_read_only: merged(m.gh_read_only, views(h.read_only@), views(h.remove_read_only@), h.replace),
        gh_mutating: merged(m.gh_mutating, views(h.mutating@), views(h.remove_mutating@), h.replace),
        gh_allowed_with_config: merged(m.gh_allowed_with_config, views(h.allowed_with_config@),
            views(h.remove_allowed_with_config@), h.replace),
        gh_config_env: env_override(h.config_env, m.gh_config_env),
    }
}

/// An overlay that sets, adds, removes and replaces nothing.
pub open spec fn overlay_is_empty(o: ConfigOverlay) -> bool {
    &&& o.settings.escalate_deny is None
    &&& !o.commands.replace && o.commands.allow@.len() == 0 && o.commands.ask@.len() == 0
        && o.commands.deny@.len() == 0 && o.commands.remove_allow@.len() == 0
        && o.commands.remove_ask@.len() == 0 && o.commands.remove_deny@.len() == 0
    &&& !o.wrappers.replace && o.wrappers.allow_floor@.len() == 0 && o.wrappers.ask_floor@.len() == 0
        && o.wrappers.remove_allow_floor@.len() == 0 && o.wrappers.remove_ask_floor@.len() == 0
    &&& !o.git.replace && o.git.read_only@.len() == 0 && o.git.allowed_with_config@.len() == 0
        && o.git.config_env is None && o.git.force_push_flags@.len() == 0
        && o.git.remove_read_only@.len() == 0 && o.git.remove_allowed_with_config@.len() == 0
        && o.git.remove_force_push_flags@.len() == 0
    &&& !o.cargo.replace && o.cargo.safe_subcommands@.len() == 0 && o.cargo.allowed_with_config@.len() == 0
        && o.cargo.config_env is None && o.cargo.remove_safe_subcommands@.len() == 0
        && o.cargo.remove_allowed_with_config@.len() == 0
    &&& !o.kubectl.replace && o.kubectl.read_only@.len() == 0 && o.kubectl.mutating@.len() == 0
        && o.kubectl.allowed_with_config@.len() == 0 && o.kubectl.config_env is None
        && o.kubectl.remove_read_only@.len() == 0 && o.kubectl.remove_mutating@.len() == 0
        && o.kubectl.remove_allowed_with_config@.len() == 0
    &&& !o.gh.replace && o.gh.read_only@.len() == 0 && o.gh.mutating@.len() == 0
        && o.gh.allowed_with_config@.len() == 0 && o.gh.config_env is None
        && o.gh.remove_read_only@.len() == 0 && o.gh.remove_mutating@.len() == 0
        && o.gh.remove_allowed_with_config@.len() == 0
}

/// Applying an empty overlay changes nothing.
pub proof fn law_empty_overlay(m: ConfigModel, o: ConfigOverlay)
    requires
        overlay_is_empty(o),
    ensures
        applied(m, o) == m,
{
    assert(views(o.commands.allow@) =~= Seq::<Seq<char>>::empty());
    assert(views(o.commands.ask@) =~= Seq::<Seq<char>>::empty());
    assert(views(o.commands.deny@) =~= Seq::<Seq<char>>::empty());
    assert(views(o.commands.remove_allow@) =~= Seq::<Seq<char>>::empty());
    assert(views(o.commands.remove_ask@) =~= Seq::<Seq<char>>::empty());
    assert(views(o.commands.remove_deny@) =~= Seq::<Seq<char>>::empty());
    assert(views(o.wrappers.allow_floor@) =~= Seq::<Seq<char>>::empty());
    assert(views(o.wrappers.ask_floor@) =~= Seq::<Seq<char>>::empty());
    assert(views(o.wrappers.remove_allow_floor@) =~= Seq::<Seq<char>>::empty());
    assert(views(o.wrappers.remove_ask_floor@) =~= Seq::<Seq<char>>::empty());
    assert(views(o.git.read_only@) =~= Seq::<Seq<char>>::empty());
    assert(views(o.git.allowed_with_config@) =~= Seq::<Seq<char>>::empty());
    assert(views(o.git.force_push_flags@) =~= Seq::<Seq<char>>::empty());
    assert(views(o.git.remove_read_only@) =~= Seq::<Seq<char>>::empty());
    assert(views(o.git.remove_allowed_with_config@) =~= Seq::<Seq<char>>::empty());
    assert(views(o.git.remove_force_push_flags@) =~= Seq::<Seq<char>>::empty());
    assert(views(o.cargo.safe_subcommands@) =~= Seq::<Seq<char>>::empty());
    assert(views(o.cargo.allowed_with_config@) =~= Seq::<Seq<char>>::empty());
    assert(views(o.cargo.remove_safe_subcommands@) =~= Seq::<Seq<char>>::empty());
    assert(views(o.cargo.remove_allowed_with_config@) =~= Seq::<Seq<char>>::empty());
    assert(views(o.kubectl.read_only@) =~= Seq::<Seq<char>>::empty());
    assert(views(o.kubectl.mutating@) =~= Seq::<Seq<char>>::empty());
    assert(views(o.kubectl.allowed_with_config@) =~= Seq::<Seq<char>>::empty());
    assert(views(o.kubectl.remove_read_only@) =~= Seq::<Seq<char>>::empty());
    assert(views(o.kubectl.remove_mutating@) =~= Seq::<Seq<char>>::empty());
    assert(views(o.kubectl.remove_allowed_with_config@) =~= Seq::<Seq<char>>::empty());
    assert(views(o.gh.read_only@) =~= Seq::<Seq<char>>::empty());
    assert(views(o.gh.mutating@) =~= Seq::<Seq<char>>::empty());
    assert(views(o.gh.allowed_with_config@) =~= Seq::<Seq<char>>::empty());
    assert(views(o.gh.remove_read_only@) =~= Seq::<Seq<char>>::empty());
    assert(views(o.gh.remove_mutating@) =~= Seq::<Seq<char>>::empty());
    assert(views(o.gh.remove_allowed_with_config@) =~= Seq::<Seq<char>>::empty());
    law_merge_empty(m.allow);
    law_merge_empty(m.ask);
    law_merge_empty(m.deny);
    law_merge_empty(m.allow_floor);
    law_merge_empty(m.ask_floor);
    law_merge_empty(m.git_read_only);
    law_merge_empty(m.git_allowed_with_config);
    law_merge_empty(m.git_force_push_flags);
    law_merge_empty(m.cargo_safe_subcommands);
    law_merge_empty(m.cargo_allowed_with_config);
    law_merge_empty(m.kubectl_read_only);
    law_merge_empty(m.kubectl_mutating);
    law_merge_empty(m.kubectl_allowed_with_config);
    law_merge_empty(m.gh_read_only);
    law_merge_empty(m.gh_mutating);
    law_merge_empty(m.gh_allowed_with_config);
}

/// A replaced variable table when the overlay gives one.
fn override_env(target: &mut NameMap<String>, o: Option<NameMap<String>>)
    ensures
        env_view(*final(target)) == env_override(o, env_view(*old(target))),
{
    match o {
        Some(m) => {
            *target = m;
        },
        None => {},
    }
}

impl Config {
    /// Applies `overlay` on top of this configuration.
    pub fn apply_overlay(&mut self, overlay: ConfigOverlay)
        ensures
            config_model(*final(self)) == applied(config_model(*old(self)), overlay),
            overlay.git.config_env is Some ==> env_view(final(self).git.config_env) == env_view(overlay.git.config_env->0),
            overlay.git.config_env is None ==> env_view(final(self).git.config_env) == env_view(old(self).git.config_env),
            overlay.cargo.config_env is Some ==> env_view(final(self).cargo.config_env) == env_view(overlay.cargo.config_env->0),
            overlay.cargo.config_env is None ==> env_view(final(self).cargo.config_env) == env_view(old(self).cargo.config_env),
            overlay.kubectl.config_env is Some ==> env_view(final(self).kubectl.config_env) == env_view(overlay.kubectl.config_env->0),
            overlay.kubectl.config_env is None ==> env_view(final(self).kubectl.config_env) == env_view(old(self).kubectl.config_env),
            overlay.gh.config_env is Some ==> env_view(final(self).gh.config_env) == env_view(overlay.gh.config_env->0),
            overlay.gh.config_env is None ==> env_view(final(self).gh.config_env) == env_view(old(self).gh.config_env),
    {
        let ghost o = overlay;
        let ConfigOverlay { settings, commands: c, wrappers: w, git: g, cargo: ca, kubectl: k, gh } = overlay;
        match settings.escalate_deny {
            Some(v) => {
                self.settings.escalate_deny = v;
            },
            None => {},
        }
        merge_list(&mut self.commands.allow, c.allow, &c.remove_allow, c.replace);
        merge_list(&mut self.commands.ask, c.ask, &c.remove_ask, c.replace);
        merge_list(&mut self.commands.deny, c.deny, &c.remove_deny, c.replace);
        merge_list(&mut self.wrappers.allow_floor, w.allow_floor, &w.remove_allow_floor, w.replace);
        merge_list(&mut self.wrappers.ask_floor, w.ask_floor, &w.remove_ask_floor, w.replace);
        merge_list(&mut self.git.read_only, g.read_only, &g.remove_read_only, g.replace);
        merge_list(&mut self.git.allowed_with_config, g.allowed_with_config, &g.remove_allowed_with_config, g.replace);
        merge_list(&mut self.git.force_push_flags, g.force_push_flags, &g.remove_force_push_flags, g.replace);
        override_env(&mut self.git.config_env, g.config_env);
        merge_list(&mut self.cargo.safe_subcommands, ca.safe_subcommands, &ca.remove_safe_subcommands, ca.replace);
        merge_list(&mut self.cargo.allowed_with_config, ca.allowed_with_config, &ca.remove_allowed_with_config, ca.replace);
        override_env(&mut self.cargo.config_env, ca.config_env);
        merge_list(&mut self.kubectl.read_only, k.read_only, &k.remove_read_only, k.replace);
        merge_list(&mut self.kubectl.mutating, k.mutating, &k.remove_mutating, k.replace);
        merge_list(&mut self.kubectl.allowed_with_config, k.allowed_with_config, &k.remove_allowed_with_config, k.replace);
        override_env(&mut self.kubectl.config_env, k.config_env);
        merge_list(&mut self.gh.read_only, gh.read_only, &gh.remove_read_only, gh.replace);
        merge_list(&mut self.gh.mutating, gh.mutating, &gh.remove_mutating, gh.replace);
        merge_list(&mut self.gh.allowed_with_config, gh.allowed_with_config, &gh.remove_allowed_with_config, gh.replace);
        override_env(&mut self.gh.config_env, gh.config_env);
    }

    /// The built-in defaults with the user overlay and then the project
    /// overlay applied, each when there is one.
    pub fn load(user: Option<ConfigOverlay>, project: Option<ConfigOverlay>) -> (c: Config)
        ensures
            config_model(c) == (match (user, project) {
                (Some(u), Some(p)) => applied(applied(default_model(), u), p),
                (Some(u), None) => applied(default_model(), u),
                (None, Some(p)) => applied(default_model(), p),
                (None, None) => default_model(),
            }),
    {
        let mut config = Config::default_config();
        match user {
            Some(u) => config.apply_overlay(u),
            None => {},
        }
        match project {
            Some(p) => config.apply_overlay(p),
            None => {},
        }
        config
    }
}

impl ConfigOverlay {
    /// An overlay that changes nothing.
    pub fn empty() -> (o: Self)
        ensures
            overlay_is_empty(o),
    {
        ConfigOverlay {
            settings: SettingsOverlay { escalate_deny: None },
            commands: CommandsOverlay {
                replace: false,
                allow: Vec::new(),
                ask: Vec::new(),
                deny: Vec::new(),
                remove_allow: Vec::new(),
                remove_ask: Vec::new(),
                remove_deny: Vec::new(),
            },
            wrappers: WrappersOverlay {
                replace: false,
                allow_floor: Vec::new(),
                ask_floor: Vec::new(),
                remove_allow_floor: Vec::new(),
                remove_ask_floor: Vec::new(),
            },
            git: GitOverlay {
                replace: false,
                read_only: Vec::new(),
                allowed_with_config: Vec::new(),
                config_env: None,
                force_push_flags: Vec::new(),
                remove_read_only: Vec::new(),
                remove_allowed_with_config: Vec::new(),
                remove_force_push_flags: Vec::new(),
            },
            cargo: CargoOverlay {
                replace: false,
                safe_subcommands: Vec::new(),
                allowed_with_config: Vec::new(),
                config_env: None,
                remove_safe_subcommands: Vec::new(),
                remove_allowed_with_config: Vec::new(),
            },
            kubectl: KubectlOverlay {
                replace: false,
                read_only: Vec::new(),
                mutating: Vec::new(),
                allowed_with_config: Vec::new(),
                config_env: None,
                remove_read_only: Vec::new(),
                remove_mutating: Vec::new(),
                remove_allowed_with_config: Vec::new(),
            },
            gh: GhOverlay {
                replace: false,
                read_only: Vec::new(),
                mutating: Vec::new(),
                allowed_with_config: Vec::new(),
                config_env: None,
                remove_read_only: Vec::new(),
                remove_mutating: Vec::new(),
                remove_allowed_with_config: Vec::new(),
            },
        }
    }
}

} // verus!
