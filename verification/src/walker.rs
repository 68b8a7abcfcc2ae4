//! Executable tree walk; each function computes the corresponding
//! definition of `walk`.

use vstd::prelude::*;
use crate::redirect::detect_redirections;
use crate::syntax::{Node, NodeKind};
use crate::tree::{as_ints, children, kids, named_kids, lemma_take_step, lemma_take_all};
use crate::types::{Operator, Redirection, copy_redirection, redir_view};
use crate::walk;
use crate::walk::{walk_wf, walk_at, block_at, heredoc_at, case_item_at, Seg, Walk, walk_empty, walk_single, walk_append, propagate, list_op, list_op_scan, op_before_scan, heredoc_op_before, join_op_scan, heredoc_join_op, body_scan, body_of, first_of_kind, cut_of, cut_fold, effective_end, semi_fold, pipe_fold, loop_fold, if_fold, case_fold, item_fold, heredoc_fold, hd_search};

verus! {

/// A segment's byte range and inherited redirection.
pub struct SegmentInfo {
    /// Start byte.
    pub start: usize,
    /// End byte.
    pub end: usize,
    /// Redirection inherited from a wrapping construct.
    pub redirection: Option<Redirection>,
}

/// Segments interleaved with operators.
pub struct WalkResult {
    /// Segments in source order.
    pub segments: Vec<SegmentInfo>,
    /// Operators between consecutive segments.
    pub operators: Vec<Operator>,
    /// Joins of two non-empty parts that had no operator between them.
    pub unjoined: Ghost<nat>,
}

pub open spec fn seg_of(s: SegmentInfo) -> Seg {
    Seg { start: s.start as int, end: s.end as int, redir: redir_view(s.redirection) }
}

pub open spec fn walk_of(w: WalkResult) -> Walk {
    Walk { segs: w.segments@.map_values(|s: SegmentInfo| seg_of(s)), ops: w.operators@, unjoined: w.unjoined@ }
}

impl WalkResult {
    /// No segments.
    pub fn empty() -> (r: WalkResult)
        ensures
            walk_of(r) == walk_empty(),
    {
        let r = WalkResult { segments: Vec::new(), operators: Vec::new(), unjoined: Ghost(0) };
        assert(walk_of(r).segs =~= Seq::<Seg>::empty());
        r
    }

    /// One segment.
    pub fn single(start: usize, end: usize, redir: Option<Redirection>) -> (r: WalkResult)
        ensures
            walk_of(r) == walk_single(start as int, end as int, redir_view(redir)),
    {
        let s = SegmentInfo { start, end, redirection: redir };
        let r = WalkResult { segments: vec![s], operators: Vec::new(), unjoined: Ghost(0) };
        assert(walk_of(r).segs =~= seq![seg_of(s)]);
        r
    }

    /// Appends `other`, with `join_op` in between when both have segments.
    pub fn append(&mut self, other: WalkResult, join_op: Option<Operator>)
        ensures
            walk_of(*final(self)) == walk_append(walk_of(*old(self)), walk_of(other), join_op),
            walk_wf(walk_of(*old(self))) && walk_wf(walk_of(other)) ==> walk_wf(walk_of(*final(self))),
    {
        if other.segments.len() == 0 {
            return;
        }
        let ghost a = walk_of(*self);
        let ghost unjoined: nat = if self.segments.len() > 0 && join_op.is_none() {
            self.unjoined@ + other.unjoined@ + 1
        } else {
            self.unjoined@ + other.unjoined@
        };
        if self.segments.len() > 0 && join_op.is_some() {
            self.operators.push(join_op.unwrap());
        }
        self.unjoined = Ghost(unjoined);
        let mut o = other;
        let ghost os = o.segments@;
        let ghost ss = self.segments@;
        self.segments.append(&mut o.segments);
        self.operators.append(&mut o.operators);
        assert(walk_of(*self).segs =~= a.segs + walk_of(other).segs) by {
            assert(self.segments@ == ss + os);
        }
    }

    /// Gives `redir` to every segment without a redirection.
    pub fn propagate(&mut self, redir: &Option<Redirection>)
        ensures
            walk_of(*final(self)) == propagate(walk_of(*old(self)), redir_view(*redir)),
            walk_wf(walk_of(*old(self))) ==> walk_wf(walk_of(*final(self))),
    {
        let ghost w = walk_of(*self);
        let mut segs: Vec<SegmentInfo> = Vec::new();
        let mut old_segs = Vec::new();
        std::mem::swap(&mut old_segs, &mut self.segments);
        let n = old_segs.len();
        let mut i: usize = 0;
        while i < n
            invariant
                i <= n,
                n == old_segs.len(),
                w.segs == old_segs@.map_values(|s: SegmentInfo| seg_of(s)),
                segs@.len() == i,
                forall|k: int| 0 <= k < i ==> seg_of(#[trigger] segs@[k])
                    == propagate(w, redir_view(*redir)).segs[k],
            decreases n - i,
        {
            let s = &old_segs[i];
            let r = if s.redirection.is_none() { copy_redirection(redir) } else { copy_redirection(&s.redirection) };
            segs.push(SegmentInfo { start: s.start, end: s.end, redirection: r });
            i = i + 1;
        }
        self.segments = segs;
        assert(walk_of(*self).segs =~= propagate(w, redir_view(*redir)).segs);
    }
}

/// The operator of a `list` node.
fn list_operator(nodes: &Vec<Node>, i: usize) -> (r: Operator)
    requires
        i < nodes.len(),
    ensures
        r == list_op(nodes@, i as int),
{
    let ks = children(nodes, i, false);
    let mut found: Option<Operator> = None;
    let mut idx: usize = 0;
    while idx < ks.len()
        invariant
            idx <= ks.len(),
            as_ints(ks@) == kids(nodes@, i as int),
            forall|k: int| 0 <= k < ks.len() ==> i < #[trigger] ks@[k] < nodes.len(),
            found == list_op_scan(nodes@, as_ints(ks@).take(idx as int)),
        decreases ks.len() - idx,
    {
        proof { lemma_take_step(ks@, idx as int); }
        let n = nodes[ks[idx]];
        if found.is_none() {
            if !n.named && n.kind == NodeKind::AndAnd {
                found = Some(Operator::And);
            } else if !n.named && n.kind == NodeKind::OrOr {
                found = Some(Operator::Or);
            }
        }
        idx = idx + 1;
    }
    proof { lemma_take_all(ks@); }
    match found { Some(o) => o, None => Operator::Semi }
}

/// The operator before child `c` inside the heredoc redirect `p`.
fn heredoc_operator_before(nodes: &Vec<Node>, p: usize, c: usize) -> (r: Operator)
    requires
        p < nodes.len(),
        c < nodes.len(),
    ensures
        r == heredoc_op_before(nodes@, p as int, c as int),
{
    let ks = children(nodes, p, false);
    let b = nodes[c].start;
    let mut last: Option<Operator> = None;
    let mut stopped = false;
    let mut idx: usize = 0;
    while idx < ks.len()
        invariant
            idx <= ks.len(),
            b == nodes@[c as int].start,
            as_ints(ks@) == kids(nodes@, p as int),
            forall|k: int| 0 <= k < ks.len() ==> p < #[trigger] ks@[k] < nodes.len(),
            (last, stopped) == op_before_scan(nodes@, as_ints(ks@).take(idx as int), b as int),
        decreases ks.len() - idx,
    {
        proof { lemma_take_step(ks@, idx as int); }
        let n = nodes[ks[idx]];
        if !stopped {
            if n.start >= b {
                stopped = true;
            } else if !n.named {
                if n.kind == NodeKind::AndAnd {
                    last = Some(Operator::And);
                } else if n.kind == NodeKind::OrOr {
                    last = Some(Operator::Or);
                } else if n.kind == NodeKind::BarAmp {
                    last = Some(Operator::PipeErr);
                } else if n.kind == NodeKind::Bar {
                    last = Some(Operator::Pipe);
                }
            }
        }
        idx = idx + 1;
    }
    proof { lemma_take_all(ks@); }
    match last { Some(o) => o, None => Operator::Pipe }
}

/// The operator joining a heredoc body command to the same-line content.
fn heredoc_join_operator(nodes: &Vec<Node>, c: usize) -> (r: Operator)
    requires
        c < nodes.len(),
    ensures
        r == heredoc_join_op(nodes@, c as int),
{
    let ks = children(nodes, c, false);
    let mut found: Option<Operator> = None;
    let mut idx: usize = 0;
    while idx < ks.len()
        invariant
            idx <= ks.len(),
            as_ints(ks@) == kids(nodes@, c as int),
            forall|k: int| 0 <= k < ks.len() ==> c < #[trigger] ks@[k] < nodes.len(),
            found == join_op_scan(nodes@, as_ints(ks@).take(idx as int)),
        decreases ks.len() - idx,
    {
        proof { lemma_take_step(ks@, idx as int); }
        let n = nodes[ks[idx]];
        if found.is_none() {
            if !n.named {
                if n.kind == NodeKind::AndAnd {
                    found = Some(Operator::And);
                } else if n.kind == NodeKind::OrOr {
                    found = Some(Operator::Or);
                } else if n.kind == NodeKind::BarAmp {
                    found = Some(Operator::PipeErr);
                }
            } else if n.kind == NodeKind::Pipeline || n.kind == NodeKind::Command || n.kind == NodeKind::List
                || n.kind == NodeKind::RedirectedStatement {
                found = Some(Operator::Pipe);
            }
        }
        idx = idx + 1;
    }
    proof { lemma_take_all(ks@); }
    match found { Some(o) => o, None => Operator::Pipe }
}

/// The body child among the named children `ns` of a redirected statement.
fn body_child(nodes: &Vec<Node>, ns: &Vec<usize>, parent: usize, stop: bool) -> (r: Option<usize>)
    requires
        forall|k: int| 0 <= k < ns.len() ==> parent < #[trigger] ns@[k] < nodes.len(),
    ensures
        match r {
            Some(b) => body_of(nodes@, as_ints(ns@), stop) == Some(b as int) && parent < b < nodes.len(),
            None => body_of(nodes@, as_ints(ns@), stop) is None,
        },
{
    let mut decided: Option<Option<usize>> = None;
    let mut idx: usize = 0;
    while idx < ns.len()
        invariant
            idx <= ns.len(),
            forall|k: int| 0 <= k < ns.len() ==> parent < #[trigger] ns@[k] < nodes.len(),
            match decided {
                Some(Some(b)) => body_scan(nodes@, as_ints(ns@).take(idx as int), stop) == Some(Some(b as int))
                    && parent < b < nodes.len(),
                Some(None) => body_scan(nodes@, as_ints(ns@).take(idx as int), stop) == Some(None::<int>),
                None => body_scan(nodes@, as_ints(ns@).take(idx as int), stop) is None,
            },
        decreases ns.len() - idx,
    {
        proof { lemma_take_step(ns@, idx as int); }
        let k = ns[idx];
        let kind = nodes[k].kind;
        if decided.is_none() {
            if kind == NodeKind::HeredocRedirect {
                if stop {
                    decided = Some(None);
                }
            } else if kind == NodeKind::FileRedirect || kind == NodeKind::HerestringRedirect {
            } else {
                decided = Some(Some(k));
            }
        }
        idx = idx + 1;
    }
    proof { lemma_take_all(ns@); }
    match decided { Some(x) => x, None => None }
}

/// The first of `ks` with kind `kind`.
fn first_child_of_kind(nodes: &Vec<Node>, ks: &Vec<usize>, parent: usize, kind: NodeKind) -> (r: Option<usize>)
    requires
        forall|k: int| 0 <= k < ks.len() ==> parent < #[trigger] ks@[k] < nodes.len(),
    ensures
        match r {
            Some(b) => first_of_kind(nodes@, as_ints(ks@), kind) == Some(b as int) && parent < b < nodes.len(),
            None => first_of_kind(nodes@, as_ints(ks@), kind) is None,
        },
{
    let mut found: Option<usize> = None;
    let mut idx: usize = 0;
    while idx < ks.len()
        invariant
            idx <= ks.len(),
            forall|k: int| 0 <= k < ks.len() ==> parent < #[trigger] ks@[k] < nodes.len(),
            match found {
                Some(b) => first_of_kind(nodes@, as_ints(ks@).take(idx as int), kind) == Some(b as int)
                    && parent < b < nodes.len(),
                None => first_of_kind(nodes@, as_ints(ks@).take(idx as int), kind) is None,
            },
        decreases ks.len() - idx,
    {
        proof { lemma_take_step(ks@, idx as int); }
        if found.is_none() && nodes[ks[idx]].kind == kind {
            found = Some(ks[idx]);
        }
        idx = idx + 1;
    }
    proof { lemma_take_all(ks@); }
    found
}

/// Cuts `e` at heredoc bodies in the subtree of `i`.
fn trim_at_heredoc_body(nodes: &Vec<Node>, i: usize, e: usize) -> (r: usize)
    requires
        i < nodes.len(),
    ensures
        r as int == cut_of(nodes@, i as int, e as int),
        r <= e,
    decreases nodes.len() - i,
{
    let ks = children(nodes, i, false);
    let mut end = e;
    let mut stopped = false;
    let mut idx: usize = 0;
    while idx < ks.len()
        invariant
            i < nodes.len(),
            idx <= ks.len(),
            end <= e,
            as_ints(ks@) == kids(nodes@, i as int),
            forall|k: int| 0 <= k < ks.len() ==> i < #[trigger] ks@[k] < nodes.len(),
            (end as int, stopped) == cut_fold(nodes@, i as int, as_ints(ks@).take(idx as int), e as int),
        decreases ks.len() - idx,
    {
        proof { lemma_take_step(ks@, idx as int); }
        let c = ks[idx];
        if !stopped {
            if nodes[c].kind == NodeKind::HeredocBody {
                if nodes[c].start < end {
                    end = nodes[c].start;
                }
                stopped = true;
            } else {
                end = trim_at_heredoc_body(nodes, c, end);
            }
        }
        idx = idx + 1;
    }
    proof { lemma_take_all(ks@); }
    end
}

/// The end byte of node `i` without heredoc body content.
fn effective_end_of(nodes: &Vec<Node>, i: usize) -> (r: usize)
    requires
        i < nodes.len(),
    ensures
        r as int == effective_end(nodes@, i as int),
{
    trim_at_heredoc_body(nodes, i, nodes[i].end)
}

/// The walks of the children `ks` of `p`, joined by `;`.
fn walk_children_semi(nodes: &Vec<Node>, src: &[char], p: usize, ks: &Vec<usize>) -> (r: WalkResult)
    requires
        p < nodes.len(),
        forall|k: int| 0 <= k < ks.len() ==> p < #[trigger] ks@[k] < nodes.len(),
    ensures
        walk_of(r) == semi_fold(nodes@, src@, p as int, as_ints(ks@)),
        walk_wf(walk_of(r)),
    decreases nodes.len() - p, 1nat,
{
    let mut result = WalkResult::empty();
    let mut idx: usize = 0;
    while idx < ks.len()
        invariant
            p < nodes.len(),
            idx <= ks.len(),
            forall|k: int| 0 <= k < ks.len() ==> p < #[trigger] ks@[k] < nodes.len(),
            walk_of(result) == semi_fold(nodes@, src@, p as int, as_ints(ks@).take(idx as int)),
            walk_wf(walk_of(result)),
        decreases ks.len() - idx,
    {
        proof { lemma_take_step(ks@, idx as int); }
        let c = ks[idx];
        let w = walk_ast(nodes, src, c);
        proof { assert(walk_at(nodes@, src@, p as int, c as int) == walk::walk_ast(nodes@, src@, c as int)); }
        result.append(w, Some(Operator::Semi));
        idx = idx + 1;
    }
    proof { lemma_take_all(ks@); }
    result
}

/// Dispatches on the kind of node `i` and returns its segments and
/// operators.
pub fn walk_ast(nodes: &Vec<Node>, src: &[char], i: usize) -> (r: WalkResult)
    requires
        i < nodes.len(),
    ensures
        walk_of(r) == walk::walk_ast(nodes@, src@, i as int),
        walk_wf(walk_of(r)),
    decreases nodes.len() - i, 3nat,
{
    let n = nodes[i];
    let k = n.kind;
    if k == NodeKind::Program {
        walk_program(nodes, src, i)
    } else if k == NodeKind::List {
        walk_list(nodes, src, i)
    } else if k == NodeKind::Pipeline {
        walk_pipeline(nodes, src, i)
    } else if k == NodeKind::Command || k == NodeKind::DeclarationCommand {
        let redir = detect_redirections(nodes, src, i);
        WalkResult::single(n.start, n.end, redir)
    } else if k == NodeKind::RedirectedStatement {
        walk_redirected(nodes, src, i)
    } else if k == NodeKind::ForStatement || k == NodeKind::WhileStatement || k == NodeKind::UntilStatement
        || k == NodeKind::CStyleForStatement {
        walk_loop(nodes, src, i)
    } else if k == NodeKind::IfStatement {
        walk_if(nodes, src, i)
    } else if k == NodeKind::CaseStatement {
        walk_case(nodes, src, i)
    } else if k == NodeKind::Subshell || k == NodeKind::CompoundStatement || k == NodeKind::DoGroup
        || k == NodeKind::ElseClause || k == NodeKind::ElifClause {
        walk_block(nodes, src, i)
    } else if k == NodeKind::CaseItem {
        walk_case_item(nodes, src, i)
    } else if k == NodeKind::NegatedCommand {
        walk_negated(nodes, src, i)
    } else if k == NodeKind::FunctionDefinition {
        walk_function(nodes, src, i)
    } else if k == NodeKind::VariableAssignment {
        WalkResult::single(n.start, n.end, None)
    } else if k == NodeKind::Comment || k == NodeKind::HeredocBody {
        WalkResult::empty()
    } else if n.named {
        WalkResult::single(n.start, n.end, None)
    } else {
        WalkResult::empty()
    }
}

/// The top-level `program`: named children joined by `;`.
fn walk_program(nodes: &Vec<Node>, src: &[char], i: usize) -> (r: WalkResult)
    requires
        i < nodes.len(),
    ensures
        walk_of(r) == walk::walk_block(nodes@, src@, i as int),
        walk_wf(walk_of(r)),
    decreases nodes.len() - i, 2nat,
{
    let ns = children(nodes, i, true);
    walk_children_semi(nodes, src, i, &ns)
}

/// Named children joined by `;`.
fn walk_block(nodes: &Vec<Node>, src: &[char], i: usize) -> (r: WalkResult)
    requires
        i < nodes.len(),
    ensures
        walk_of(r) == walk::walk_block(nodes@, src@, i as int),
        walk_wf(walk_of(r)),
    decreases nodes.len() - i, 2nat,
{
    let ns = children(nodes, i, true);
    walk_children_semi(nodes, src, i, &ns)
}

/// `a && b || c` is nested as `list(list(a, &&, b), ||, c)`; this flattens it.
fn walk_list(nodes: &Vec<Node>, src: &[char], i: usize) -> (r: WalkResult)
    requires
        i < nodes.len(),
    ensures
        walk_of(r) == walk::walk_list(nodes@, src@, i as int),
        walk_wf(walk_of(r)),
    decreases nodes.len() - i, 2nat,
{
    let ns = children(nodes, i, true);
    if ns.len() < 2 {
        return walk_children_semi(nodes, src, i, &ns);
    }
    let op = list_operator(nodes, i);
    let mut result = walk_ast(nodes, src, ns[0]);
    let second = walk_ast(nodes, src, ns[1]);
    result.append(second, Some(op));
    result
}

/// `pipeline`: named children joined by the `|` / `|&` tokens.
fn walk_pipeline(nodes: &Vec<Node>, src: &[char], i: usize) -> (r: WalkResult)
    requires
        i < nodes.len(),
    ensures
        walk_of(r) == walk::walk_pipeline(nodes@, src@, i as int),
        walk_wf(walk_of(r)),
    decreases nodes.len() - i, 2nat,
{
    let ks = children(nodes, i, false);
    let mut result = WalkResult::empty();
    let mut pending: Option<Operator> = None;
    let mut idx: usize = 0;
    while idx < ks.len()
        invariant
            i < nodes.len(),
            idx <= ks.len(),
            as_ints(ks@) == kids(nodes@, i as int),
            forall|k: int| 0 <= k < ks.len() ==> i < #[trigger] ks@[k] < nodes.len(),
            (walk_of(result), pending) == pipe_fold(nodes@, src@, i as int, as_ints(ks@).take(idx as int)),
            walk_wf(walk_of(result)),
        decreases ks.len() - idx,
    {
        proof { lemma_take_step(ks@, idx as int); }
        let c = ks[idx];
        let n = nodes[c];
        if n.named {
            let w = walk_ast(nodes, src, c);
            proof { assert(walk_at(nodes@, src@, i as int, c as int) == walk::walk_ast(nodes@, src@, c as int)); }
            result.append(w, pending);
            pending = None;
        } else if n.kind == NodeKind::Bar {
            pending = Some(Operator::Pipe);
        } else if n.kind == NodeKind::BarAmp {
            pending = Some(Operator::PipeErr);
        }
        idx = idx + 1;
    }
    proof { lemma_take_all(ks@); }
    result
}

/// Loops: the `do` group, and for `while`/`until` the condition too.
fn walk_loop(nodes: &Vec<Node>, src: &[char], i: usize) -> (r: WalkResult)
    requires
        i < nodes.len(),
    ensures
        walk_of(r) == walk::walk_loop(nodes@, src@, i as int),
        walk_wf(walk_of(r)),
    decreases nodes.len() - i, 2nat,
{
    let ns = children(nodes, i, true);
    let cond = nodes[i].kind == NodeKind::WhileStatement || nodes[i].kind == NodeKind::UntilStatement;
    let mut result = WalkResult::empty();
    let mut idx: usize = 0;
    while idx < ns.len()
        invariant
            i < nodes.len(),
            idx <= ns.len(),
            cond == (nodes@[i as int].kind == NodeKind::WhileStatement || nodes@[i as int].kind == NodeKind::UntilStatement),
            as_ints(ns@) == named_kids(nodes@, i as int),
            forall|k: int| 0 <= k < ns.len() ==> i < #[trigger] ns@[k] < nodes.len(),
            walk_of(result) == loop_fold(nodes@, src@, i as int, as_ints(ns@).take(idx as int)),
            walk_wf(walk_of(result)),
        decreases ns.len() - idx,
    {
        proof { lemma_take_step(ns@, idx as int); }
        let c = ns[idx];
        if nodes[c].kind == NodeKind::DoGroup {
            let w = walk_block(nodes, src, c);
            proof { assert(block_at(nodes@, src@, i as int, c as int) == walk::walk_block(nodes@, src@, c as int)); }
            result.append(w, Some(Operator::Semi));
        } else if cond {
            let w = walk_ast(nodes, src, c);
            proof { assert(walk_at(nodes@, src@, i as int, c as int) == walk::walk_ast(nodes@, src@, c as int)); }
            result.append(w, Some(Operator::Semi));
        }
        idx = idx + 1;
    }
    proof { lemma_take_all(ns@); }
    result
}

/// `if`: condition, bodies and else/elif clauses.
fn walk_if(nodes: &Vec<Node>, src: &[char], i: usize) -> (r: WalkResult)
    requires
        i < nodes.len(),
    ensures
        walk_of(r) == walk::walk_if(nodes@, src@, i as int),
        walk_wf(walk_of(r)),
    decreases nodes.len() - i, 2nat,
{
    let ns = children(nodes, i, true);
    let mut result = WalkResult::empty();
    let mut idx: usize = 0;
    while idx < ns.len()
        invariant
            i < nodes.len(),
            idx <= ns.len(),
            as_ints(ns@) == named_kids(nodes@, i as int),
            forall|k: int| 0 <= k < ns.len() ==> i < #[trigger] ns@[k] < nodes.len(),
            walk_of(result) == if_fold(nodes@, src@, i as int, as_ints(ns@).take(idx as int)),
            walk_wf(walk_of(result)),
        decreases ns.len() - idx,
    {
        proof { lemma_take_step(ns@, idx as int); }
        let c = ns[idx];
        let k = nodes[c].kind;
        if k == NodeKind::Command || k == NodeKind::DeclarationCommand || k == NodeKind::Pipeline
            || k == NodeKind::List || k == NodeKind::RedirectedStatement || k == NodeKind::CompoundStatement
            || k == NodeKind::Subshell || k == NodeKind::NegatedCommand || k == NodeKind::ElseClause
            || k == NodeKind::ElifClause {
            let w = walk_ast(nodes, src, c);
            proof { assert(walk_at(nodes@, src@, i as int, c as int) == walk::walk_ast(nodes@, src@, c as int)); }
            result.append(w, Some(Operator::Semi));
        }
        idx = idx + 1;
    }
    proof { lemma_take_all(ns@); }
    result
}

/// `case`: the bodies of its items.
fn walk_case(nodes: &Vec<Node>, src: &[char], i: usize) -> (r: WalkResult)
    requires
        i < nodes.len(),
    ensures
        walk_of(r) == walk::walk_case(nodes@, src@, i as int),
        walk_wf(walk_of(r)),
    decreases nodes.len() - i, 2nat,
{
    let ns = children(nodes, i, true);
    let mut result = WalkResult::empty();
    let mut idx: usize = 0;
    while idx < ns.len()
        invariant
            i < nodes.len(),
            idx <= ns.len(),
            as_ints(ns@) == named_kids(nodes@, i as int),
            forall|k: int| 0 <= k < ns.len() ==> i < #[trigger] ns@[k] < nodes.len(),
            walk_of(result) == case_fold(nodes@, src@, i as int, as_ints(ns@).take(idx as int)),
            walk_wf(walk_of(result)),
        decreases ns.len() - idx,
    {
        proof { lemma_take_step(ns@, idx as int); }
        let c = ns[idx];
        if nodes[c].kind == NodeKind::CaseItem {
            let w = walk_case_item(nodes, src, c);
            proof { assert(case_item_at(nodes@, src@, i as int, c as int) == walk::walk_case_item(nodes@, src@, c as int)); }
            result.append(w, Some(Operator::Semi));
        }
        idx = idx + 1;
    }
    proof { lemma_take_all(ns@); }
    result
}

/// A case item: only the commands after the `)` token.
fn walk_case_item(nodes: &Vec<Node>, src: &[char], i: usize) -> (r: WalkResult)
    requires
        i < nodes.len(),
    ensures
        walk_of(r) == walk::walk_case_item(nodes@, src@, i as int),
        walk_wf(walk_of(r)),
    decreases nodes.len() - i, 2nat,
{
    let ks = children(nodes, i, false);
    let mut result = WalkResult::empty();
    let mut past_paren = false;
    let mut idx: usize = 0;
    while idx < ks.len()
        invariant
            i < nodes.len(),
            idx <= ks.len(),
            as_ints(ks@) == kids(nodes@, i as int),
            forall|k: int| 0 <= k < ks.len() ==> i < #[trigger] ks@[k] < nodes.len(),
            (walk_of(result), past_paren) == item_fold(nodes@, src@, i as int, as_ints(ks@).take(idx as int)),
            walk_wf(walk_of(result)),
        decreases ks.len() - idx,
    {
        proof { lemma_take_step(ks@, idx as int); }
        let c = ks[idx];
        let n = nodes[c];
        if !n.named && n.kind == NodeKind::RParen {
            past_paren = true;
        } else if past_paren && n.named {
            let w = walk_ast(nodes, src, c);
            proof { assert(walk_at(nodes@, src@, i as int, c as int) == walk::walk_ast(nodes@, src@, c as int)); }
            result.append(w, Some(Operator::Semi));
        }
        idx = idx + 1;
    }
    proof { lemma_take_all(ks@); }
    result
}

/// `! cmd`: the negated body.
fn walk_negated(nodes: &Vec<Node>, src: &[char], i: usize) -> (r: WalkResult)
    requires
        i < nodes.len(),
    ensures
        walk_of(r) == walk::walk_negated(nodes@, src@, i as int),
        walk_wf(walk_of(r)),
    decreases nodes.len() - i, 2nat,
{
    let ns = children(nodes, i, true);
    if ns.len() > 0 {
        walk_ast(nodes, src, ns[0])
    } else {
        WalkResult::empty()
    }
}

/// A function definition: its body.
fn walk_function(nodes: &Vec<Node>, src: &[char], i: usize) -> (r: WalkResult)
    requires
        i < nodes.len(),
    ensures
        walk_of(r) == walk::walk_function(nodes@, src@, i as int),
        walk_wf(walk_of(r)),
    decreases nodes.len() - i, 2nat,
{
    let ns = children(nodes, i, true);
    match first_child_of_kind(nodes, &ns, i, NodeKind::CompoundStatement) {
        Some(c) => walk_block(nodes, src, c),
        None => WalkResult::empty(),
    }
}

/// Commands on the same line as a heredoc marker.
fn walk_heredoc_redirect(nodes: &Vec<Node>, src: &[char], i: usize) -> (r: WalkResult)
    requires
        i < nodes.len(),
    ensures
        walk_of(r) == walk::walk_heredoc(nodes@, src@, i as int),
        walk_wf(walk_of(r)),
    decreases nodes.len() - i, 2nat,
{
    let ns = children(nodes, i, true);
    let mut result = WalkResult::empty();
    let mut loose_start: Option<usize> = None;
    let mut loose_end: usize = 0;
    let mut idx: usize = 0;
    while idx < ns.len()
        invariant
            i < nodes.len(),
            idx <= ns.len(),
            as_ints(ns@) == named_kids(nodes@, i as int),
            forall|k: int| 0 <= k < ns.len() ==> i < #[trigger] ns@[k] < nodes.len(),
            ({
                let (w, loose, lend) = heredoc_fold(nodes@, src@, i as int, as_ints(ns@).take(idx as int));
                &&& walk_of(result) == w
                &&& walk_wf(w)
                &&& loose_end as int == lend
                &&& (match loose_start { Some(s) => loose == Some(s as int), None => loose is None })
            }),
        decreases ns.len() - idx,
    {
        proof { lemma_take_step(ns@, idx as int); }
        let c = ns[idx];
        let k = nodes[c].kind;
        if k == NodeKind::Pipeline || k == NodeKind::List || k == NodeKind::Command || k == NodeKind::RedirectedStatement {
            match loose_start {
                Some(s) => {
                    result.append(WalkResult::single(s, loose_end, None), Some(Operator::Semi));
                },
                None => {},
            }
            loose_start = None;
            let op = heredoc_operator_before(nodes, i, c);
            let w = walk_ast(nodes, src, c);
            proof { assert(walk_at(nodes@, src@, i as int, c as int) == walk::walk_ast(nodes@, src@, c as int)); }
            result.append(w, Some(op));
        } else if k == NodeKind::Word {
            if loose_start.is_none() {
                loose_start = Some(nodes[c].start);
            }
            loose_end = nodes[c].end;
        }
        idx = idx + 1;
    }
    proof { lemma_take_all(ns@); }
    match loose_start {
        Some(s) => {
            result.append(WalkResult::single(s, loose_end, None), Some(Operator::Semi));
        },
        None => {},
    }
    result
}

/// `redirected_statement`: a body together with its redirects.
fn walk_redirected(nodes: &Vec<Node>, src: &[char], i: usize) -> (r: WalkResult)
    requires
        i < nodes.len(),
    ensures
        walk_of(r) == walk::walk_redirected(nodes@, src@, i as int),
        walk_wf(walk_of(r)),
    decreases nodes.len() - i, 2nat,
{
    let redir = detect_redirections(nodes, src, i);
    let ns = children(nodes, i, true);
    let mut found: Option<(usize, WalkResult)> = None;
    let mut idx: usize = 0;
    while idx < ns.len()
        invariant
            i < nodes.len(),
            idx <= ns.len(),
            as_ints(ns@) == named_kids(nodes@, i as int),
            forall|k: int| 0 <= k < ns.len() ==> i < #[trigger] ns@[k] < nodes.len(),
            match found {
                Some((c, w)) => hd_search(nodes@, src@, i as int, as_ints(ns@).take(idx as int))
                    == Some((c as int, walk_of(w))) && i < c < nodes.len() && walk_wf(walk_of(w)),
                None => hd_search(nodes@, src@, i as int, as_ints(ns@).take(idx as int)) is None,
            },
        decreases ns.len() - idx,
    {
        proof { lemma_take_step(ns@, idx as int); }
        let c = ns[idx];
        if found.is_none() && nodes[c].kind == NodeKind::HeredocRedirect {
            let inner = walk_heredoc_redirect(nodes, src, c);
            proof { assert(heredoc_at(nodes@, src@, i as int, c as int) == walk::walk_heredoc(nodes@, src@, c as int)); }
            if inner.segments.len() > 0 {
                found = Some((c, inner));
            }
        }
        idx = idx + 1;
    }
    proof { lemma_take_all(ns@); }
    match found {
        Some((c, inner)) => {
            let mut full = WalkResult::empty();
            match body_child(nodes, &ns, i, true) {
                Some(b) => {
                    if nodes[b].kind == NodeKind::Command || nodes[b].kind == NodeKind::DeclarationCommand
                        || nodes[b].kind == NodeKind::VariableAssignment {
                        let e = effective_end_of(nodes, i);
                        let end = if nodes[c].start < e { nodes[c].start } else { e };
                        full.append(WalkResult::single(nodes[b].start, end, copy_redirection(&redir)), None);
                    } else {
                        let mut body = walk_ast(nodes, src, b);
                        body.propagate(&redir);
                        full.append(body, None);
                    }
                },
                None => {},
            }
            let op = heredoc_join_operator(nodes, c);
            full.append(inner, Some(op));
            full
        },
        None => {
            match body_child(nodes, &ns, i, false) {
                Some(b) => {
                    if nodes[b].kind == NodeKind::Command || nodes[b].kind == NodeKind::DeclarationCommand
                        || nodes[b].kind == NodeKind::VariableAssignment {
                        let e = effective_end_of(nodes, i);
                        WalkResult::single(nodes[i].start, e, redir)
                    } else {
                        let mut body = walk_ast(nodes, src, b);
                        body.propagate(&redir);
                        body
                    }
                },
                None => {
                    let e = effective_end_of(nodes, i);
                    WalkResult::single(nodes[i].start, e, redir)
                },
            }
        },
    }
}

} // verus!
