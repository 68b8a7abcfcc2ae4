//! What a command evaluator knows of one command: its words, its command
//! word, the variables assigned in front of it, its output redirection, and
//! the environment it would run in.

use vstd::prelude::*;
use crate::names::{NameMap, env_view, lookup, put};
use crate::redirect::detect;
use crate::shell::has_output_redirection;
use crate::syntax::bash_tree;
use crate::text::{views, str_eq};
use crate::types::{Redirection, redir_view};
use crate::words::{words_of, command_word, assignment, tokenize, parse_assignment, first_command_word};

verus! {

/// The plain view of a command context.
pub struct Ctx {
    /// The command's words.
    pub words: Seq<Seq<char>>,
    /// The command word (first word that is not an assignment).
    pub base: Seq<char>,
    /// Variables assigned in front of the command word.
    pub inline_env: Seq<(Seq<char>, Seq<char>)>,
    /// The command's own output redirection.
    pub redir: Option<Seq<char>>,
    /// Variables set by earlier segments of the command line.
    pub accumulated: Seq<(Seq<char>, Seq<char>)>,
    /// The environment of the process that evaluates.
    pub process: Seq<(Seq<char>, Seq<char>)>,
}

/// The assignments among the first `n` words, as long as every word so far
/// is one (later ones override earlier ones), and whether they all were.
pub open spec fn lead_env(words: Seq<Seq<char>>, n: int) -> (Seq<(Seq<char>, Seq<char>)>, bool)
    decreases n,
{
    if n <= 0 {
        (Seq::empty(), true)
    } else {
        let (e, going) = lead_env(words, n - 1);
        if going {
            match assignment(words[n - 1]) {
                Some((k, v)) => (put(e, k, v), true),
                None => (e, false),
            }
        } else {
            (e, false)
        }
    }
}

/// The variables assigned in front of the command word.
pub open spec fn inline_env(words: Seq<Seq<char>>) -> Seq<(Seq<char>, Seq<char>)> {
    lead_env(words, words.len() as int).0
}

/// The context of `cmd` with accumulated variables `acc` and process
/// environment `proc_env`.
pub open spec fn context_of(
    cmd: Seq<char>,
    acc: Seq<(Seq<char>, Seq<char>)>,
    proc_env: Seq<(Seq<char>, Seq<char>)>,
) -> Ctx {
    let ws = words_of(cmd);
    Ctx {
        words: ws,
        base: command_word(ws),
        inline_env: inline_env(ws),
        redir: detect(bash_tree(cmd), cmd, 0),
        accumulated: acc,
        process: proc_env,
    }
}

/// The value a variable has for the command: its inline assignment, else
/// the value set by an earlier segment, else the process environment's.
pub open spec fn var_value(c: Ctx, k: Seq<char>) -> Option<Seq<char>> {
    match lookup(c.inline_env, k) {
        Some(v) => Some(v),
        None => match lookup(c.accumulated, k) {
            Some(v) => Some(v),
            None => lookup(c.process, k),
        },
    }
}

/// Every required variable has exactly the required value.
pub open spec fn env_holds(c: Ctx, required: Seq<(Seq<char>, Seq<char>)>) -> bool {
    forall|i: int| 0 <= i < required.len() ==> var_value(c, #[trigger] required[i].0) == Some(required[i].1)
}

/// Per-command evaluation context.
pub struct CommandContext {
    /// The command's words (quotes removed).
    pub words: Vec<String>,
    /// The command word.
    pub base_command: String,
    /// Variables assigned in front of the command word.
    pub env_vars: NameMap<String>,
    /// The command's own output redirection, if any.
    pub redirection: Option<Redirection>,
    /// Variables set by earlier segments of the command line.
    pub accumulated_env: NameMap<String>,
    /// The environment of the evaluating process, consulted last.
    pub process_env: NameMap<String>,
}

/// The plain view of a context.
pub open spec fn ctx_view(c: CommandContext) -> Ctx {
    Ctx {
        words: views(c.words@),
        base: c.base_command@,
        inline_env: env_view(c.env_vars),
        redir: redir_view(c.redirection),
        accumulated: env_view(c.accumulated_env),
        process: env_view(c.process_env),
    }
}

/// Whether `w` is one of `ws`.
pub open spec fn has_word(ws: Seq<Seq<char>>, w: Seq<char>) -> bool {
    exists|i: int| 0 <= i < ws.len() && ws[i] == w
}

/// The variables assigned in front of the command word of `words`.
fn leading_assignments(words: &Vec<String>) -> (m: NameMap<String>)
    ensures
        env_view(m) == inline_env(views(words@)),
{
    let ghost ws = views(words@);
    let mut m: NameMap<String> = NameMap::new();
    let mut i: usize = 0;
    assert(env_view(m) =~= Seq::<(Seq<char>, Seq<char>)>::empty());
    while i < words.len()
        invariant
            i <= words.len(),
            ws == views(words@),
            lead_env(ws, i as int) == (env_view(m), true),
        decreases words.len() - i,
    {
        assert(ws[i as int] == words@[i as int]@);
        match parse_assignment(words[i].as_str()) {
            Some((k, v)) => {
                m.insert_str(k, v);
                i = i + 1;
            },
            None => {
                proof { lemma_lead_env_stops(ws, i as int); }
                return m;
            },
        }
    }
    m
}

/// Once a word is not an assignment, the leading assignments stay fixed.
proof fn lemma_lead_env_stops(ws: Seq<Seq<char>>, i: int)
    requires
        0 <= i < ws.len(),
        lead_env(ws, i).1,
        assignment(ws[i]) is None,
    ensures
        inline_env(ws) == lead_env(ws, i).0,
{
    lemma_lead_env_frozen(ws, i + 1, ws.len() as int, lead_env(ws, i).0);
}

proof fn lemma_lead_env_frozen(ws: Seq<Seq<char>>, from: int, n: int, e: Seq<(Seq<char>, Seq<char>)>)
    requires
        1 <= from <= n,
        lead_env(ws, from) == (e, false),
    ensures
        lead_env(ws, n) == (e, false),
    decreases n - from,
{
    if from < n {
        lemma_lead_env_frozen(ws, from, n - 1, e);
    }
}

impl CommandContext {
    /// The context of `command`: its words, command word, leading
    /// assignments and output redirection; no accumulated or process
    /// variables.
    pub fn from_command(command: &str) -> (c: Self)
        ensures
            ctx_view(c) == context_of(command@, Seq::empty(), Seq::empty()),
    {
        let words = tokenize(command);
        let base = first_command_word(&words);
        let env = leading_assignments(&words);
        let redirection = has_output_redirection(command);
        let c = CommandContext {
            words,
            base_command: base,
            env_vars: env,
            redirection,
            accumulated_env: NameMap::new(),
            process_env: NameMap::new(),
        };
        assert(env_view(c.accumulated_env) =~= Seq::<(Seq<char>, Seq<char>)>::empty());
        assert(env_view(c.process_env) =~= Seq::<(Seq<char>, Seq<char>)>::empty());
        c
    }

    /// Whether `flag` is one of the words.
    pub fn has_flag(&self, flag: &str) -> (r: bool)
        ensures
            r == has_word(views(self.words@), flag@),
    {
        let mut i: usize = 0;
        while i < self.words.len()
            invariant
                i <= self.words.len(),
                forall|j: int| 0 <= j < i ==> views(self.words@)[j] != flag@,
            decreases self.words.len() - i,
        {
            if str_eq(self.words[i].as_str(), flag) {
                assert(views(self.words@)[i as int] == flag@);
                return true;
            }
            i = i + 1;
        }
        false
    }

    /// Whether any of `flags` is one of the words.
    pub fn has_any_flag(&self, flags: &[&str]) -> (r: bool)
        ensures
            r == exists|j: int| 0 <= j < flags.len() && has_word(views(self.words@), #[trigger] flags@[j]@),
    {
        let mut j: usize = 0;
        while j < flags.len()
            invariant
                j <= flags.len(),
                forall|m: int| 0 <= m < j ==> !has_word(views(self.words@), #[trigger] flags@[m]@),
            decreases flags.len() - j,
        {
            if self.has_flag(flags[j]) {
                return true;
            }
            j = j + 1;
        }
        false
    }

    /// The value of variable `key` for this command.
    pub fn var(&self, key: &str) -> (r: Option<&String>)
        ensures
            match r {
                Some(v) => var_value(ctx_view(*self), key@) == Some(v@),
                None => var_value(ctx_view(*self), key@) is None,
            },
    {
        match self.env_vars.get_str(key) {
            Some(v) => Some(v),
            None => match self.accumulated_env.get_str(key) {
                Some(v) => Some(v),
                None => self.process_env.get_str(key),
            },
        }
    }

    /// Whether every variable of `required` has exactly the required value
    /// for this command.
    pub fn env_satisfies(&self, required: &NameMap<String>) -> (r: bool)
        ensures
            r == env_holds(ctx_view(*self), env_view(*required)),
    {
        let n = required.len();
        let ghost req = env_view(*required);
        let mut i: usize = 0;
        while i < n
            invariant
                i <= n,
                n == required@.len(),
                req == env_view(*required),
                forall|m: int| 0 <= m < i ==> var_value(ctx_view(*self), #[trigger] req[m].0) == Some(req[m].1),
            decreases n - i,
        {
            let k = required.key_at(i);
            let want = required.value_at(i);
            assert(req[i as int] == (required@[i as int].0, required@[i as int].1@));
            match self.var(k.as_str()) {
                Some(have) => {
                    if !str_eq(have.as_str(), want.as_str()) {
                        assert(var_value(ctx_view(*self), req[i as int].0) != Some(req[i as int].1));
                        assert(!env_holds(ctx_view(*self), req));
                        return false;
                    }
                },
                None => {
                    assert(var_value(ctx_view(*self), req[i as int].0) != Some(req[i as int].1));
                    assert(!env_holds(ctx_view(*self), req));
                    return false;
                },
            }
            i = i + 1;
        }
        true
    }
}

} // verus!
