//! Decomposition of the syntax tree into command segments joined by
//! operators.
//!
//! Structure nodes (`program`, `list`, `pipeline`) are split at their
//! operators; leaf commands become one segment each; control flow (`for`,
//! `while`, `if`, `case`, functions, blocks) is entered so that the commands
//! in its bodies are evaluated rather than the keywords. A redirection on a
//! compound construct is handed down to the segments inside it.

use vstd::prelude::*;
use crate::redirect::detect;
use crate::syntax::{Node, NodeKind};
use crate::tree::{children, kids, named_kids, is_leaf_kind};
use crate::types::Operator;

verus! {

// ── Plain model ──

/// A segment: byte range and inherited redirection.
pub struct Seg {
    pub start: int,
    pub end: int,
    pub redir: Option<Seq<char>>,
}

/// Segments interleaved with operators, and the number of joins of two
/// non-empty parts that had no operator to put between them.
pub struct Walk {
    pub segs: Seq<Seg>,
    pub ops: Seq<Operator>,
    pub unjoined: nat,
}

pub open spec fn walk_empty() -> Walk {
    Walk { segs: Seq::empty(), ops: Seq::empty(), unjoined: 0 }
}

pub open spec fn walk_single(s: int, e: int, r: Option<Seq<char>>) -> Walk {
    Walk { segs: seq![Seg { start: s, end: e, redir: r }], ops: Seq::empty(), unjoined: 0 }
}

/// `a` followed by `b`, with `op` between them when both have segments.
pub open spec fn walk_append(a: Walk, b: Walk, op: Option<Operator>) -> Walk {
    if b.segs.len() == 0 {
        a
    } else if a.segs.len() > 0 && op is Some {
        Walk { segs: a.segs + b.segs, ops: a.ops.push(op->0) + b.ops, unjoined: a.unjoined + b.unjoined }
    } else if a.segs.len() > 0 {
        Walk { segs: a.segs + b.segs, ops: a.ops + b.ops, unjoined: a.unjoined + b.unjoined + 1 }
    } else {
        Walk { segs: a.segs + b.segs, ops: a.ops + b.ops, unjoined: a.unjoined + b.unjoined }
    }
}

/// Each gap between consecutive segments holds either an operator or an
/// unjoined count; without segments there are neither.
pub open spec fn walk_wf(w: Walk) -> bool {
    if w.segs.len() == 0 {
        w.ops.len() == 0 && w.unjoined == 0
    } else {
        w.ops.len() + w.unjoined + 1 == w.segs.len()
    }
}

/// Gives redirection `r` to every segment that has none.
pub open spec fn propagate(w: Walk, r: Option<Seq<char>>) -> Walk {
    Walk {
        segs: w.segs.map_values(|s: Seg| if s.redir is None { Seg { redir: r, ..s } } else { s }),
        ops: w.ops,
        unjoined: w.unjoined,
    }
}

/// The operator that an anonymous token stands for.
pub open spec fn token_op(n: Node) -> Option<Operator> {
    if n.named { None }
    else if n.kind == NodeKind::AndAnd { Some(Operator::And) }
    else if n.kind == NodeKind::OrOr { Some(Operator::Or) }
    else if n.kind == NodeKind::BarAmp { Some(Operator::PipeErr) }
    else if n.kind == NodeKind::Bar { Some(Operator::Pipe) }
    else { None }
}

/// The operator of a `list` node: its first `&&` or `||` token (found among
/// the children `ks`), `;` when there is none.
pub open spec fn list_op_scan(nodes: Seq<Node>, ks: Seq<int>) -> Option<Operator>
    decreases ks.len(),
{
    if ks.len() == 0 {
        None
    } else {
        let prev = list_op_scan(nodes, ks.drop_last());
        let n = nodes[ks.last()];
        if prev is Some { prev }
        else if !n.named && n.kind == NodeKind::AndAnd { Some(Operator::And) }
        else if !n.named && n.kind == NodeKind::OrOr { Some(Operator::Or) }
        else { None }
    }
}

pub open spec fn list_op(nodes: Seq<Node>, i: int) -> Operator {
    match list_op_scan(nodes, kids(nodes, i)) { Some(o) => o, None => Operator::Semi }
}

/// The last operator token among the children `ks` that start before byte
/// `b`, and whether the scan has passed `b`.
pub open spec fn op_before_scan(nodes: Seq<Node>, ks: Seq<int>, b: int) -> (Option<Operator>, bool)
    decreases ks.len(),
{
    if ks.len() == 0 {
        (None, false)
    } else {
        let (last, stopped) = op_before_scan(nodes, ks.drop_last(), b);
        let n = nodes[ks.last()];
        if stopped { (last, true) }
        else if n.start >= b { (last, true) }
        else if token_op(n) is Some { (token_op(n), false) }
        else { (last, false) }
    }
}

/// The operator preceding child `c` inside a `heredoc_redirect` node `p`
/// (`|` when there is none).
pub open spec fn heredoc_op_before(nodes: Seq<Node>, p: int, c: int) -> Operator {
    match op_before_scan(nodes, kids(nodes, p), nodes[c].start as int).0 { Some(o) => o, None => Operator::Pipe }
}

/// The operator that joins a heredoc's body command to what follows on the
/// marker's line, read from the children `ks` of the `heredoc_redirect`.
pub open spec fn join_op_scan(nodes: Seq<Node>, ks: Seq<int>) -> Option<Operator>
    decreases ks.len(),
{
    if ks.len() == 0 {
        None
    } else {
        let prev = join_op_scan(nodes, ks.drop_last());
        let n = nodes[ks.last()];
        if prev is Some { prev }
        else if !n.named {
            if n.kind == NodeKind::AndAnd { Some(Operator::And) }
            else if n.kind == NodeKind::OrOr { Some(Operator::Or) }
            else if n.kind == NodeKind::BarAmp { Some(Operator::PipeErr) }
            else { None }
        } else if n.kind == NodeKind::Pipeline { Some(Operator::Pipe) }
        else if n.kind == NodeKind::Command || n.kind == NodeKind::List || n.kind == NodeKind::RedirectedStatement {
            Some(Operator::Pipe)
        } else { None }
    }
}

pub open spec fn heredoc_join_op(nodes: Seq<Node>, c: int) -> Operator {
    match join_op_scan(nodes, kids(nodes, c)) { Some(o) => o, None => Operator::Pipe }
}

/// The body of a `redirected_statement` among its named children `ks`: the
/// first child that is not a file or herestring redirect. With `stop`, a
/// heredoc redirect met first means there is none; without, heredoc
/// redirects are skipped too. `Some(x)` is the decided answer.
pub open spec fn body_scan(nodes: Seq<Node>, ks: Seq<int>, stop: bool) -> Option<Option<int>>
    decreases ks.len(),
{
    if ks.len() == 0 {
        None
    } else {
        let prev = body_scan(nodes, ks.drop_last(), stop);
        let k = ks.last();
        let kind = nodes[k].kind;
        if prev is Some { prev }
        else if kind == NodeKind::HeredocRedirect { if stop { Some(None) } else { None } }
        else if kind == NodeKind::FileRedirect || kind == NodeKind::HerestringRedirect { None }
        else { Some(Some(k)) }
    }
}

pub open spec fn body_of(nodes: Seq<Node>, ks: Seq<int>, stop: bool) -> Option<int> {
    match body_scan(nodes, ks, stop) { Some(x) => x, None => None }
}

/// The first of `ks` whose node has kind `kind`.
pub open spec fn first_of_kind(nodes: Seq<Node>, ks: Seq<int>, kind: NodeKind) -> Option<int>
    decreases ks.len(),
{
    if ks.len() == 0 {
        None
    } else {
        let prev = first_of_kind(nodes, ks.drop_last(), kind);
        if prev is Some { prev } else if nodes[ks.last()].kind == kind { Some(ks.last()) } else { None }
    }
}

/// The end of node `i`'s text once heredoc body content is cut off:
/// children are visited in order and recursively, and within one node the
/// first `heredoc_body` child ends the visit of that node.
pub open spec fn cut_of(nodes: Seq<Node>, i: int, e: int) -> int
    decreases nodes.len() - i, 1nat, 0nat,
{
    if i < 0 || i >= nodes.len() { e } else { cut_fold(nodes, i, kids(nodes, i), e).0 }
}

pub open spec fn cut_fold(nodes: Seq<Node>, p: int, ks: Seq<int>, e: int) -> (int, bool)
    decreases nodes.len() - p, 0nat, ks.len(),
{
    if ks.len() == 0 {
        (e, false)
    } else {
        let (e1, stopped) = cut_fold(nodes, p, ks.drop_last(), e);
        let c = ks.last();
        if stopped { (e1, true) }
        else if nodes[c].kind == NodeKind::HeredocBody {
            (if (nodes[c].start as int) < e1 { nodes[c].start as int } else { e1 }, true)
        } else if p < c < nodes.len() { (cut_of(nodes, c, e1), false) }
        else { (e1, false) }
    }
}

/// The end byte of node `i` without heredoc body content.
pub open spec fn effective_end(nodes: Seq<Node>, i: int) -> int {
    cut_of(nodes, i, nodes[i].end as int)
}

// ── The walk ──

/// The segments and operators of the subtree rooted at `i`.
pub open spec fn walk_ast(nodes: Seq<Node>, src: Seq<char>, i: int) -> Walk
    decreases nodes.len() - i, 3nat, 0nat,
{
    if i < 0 || i >= nodes.len() {
        walk_empty()
    } else {
        let n = nodes[i];
        let k = n.kind;
        if k == NodeKind::Program { walk_block(nodes, src, i) }
        else if k == NodeKind::List { walk_list(nodes, src, i) }
        else if k == NodeKind::Pipeline { walk_pipeline(nodes, src, i) }
        else if k == NodeKind::Command || k == NodeKind::DeclarationCommand {
            walk_single(n.start as int, n.end as int, detect(nodes, src, i))
        }
        else if k == NodeKind::RedirectedStatement { walk_redirected(nodes, src, i) }
        else if k == NodeKind::ForStatement || k == NodeKind::WhileStatement || k == NodeKind::UntilStatement
            || k == NodeKind::CStyleForStatement { walk_loop(nodes, src, i) }
        else if k == NodeKind::IfStatement { walk_if(nodes, src, i) }
        else if k == NodeKind::CaseStatement { walk_case(nodes, src, i) }
        else if k == NodeKind::Subshell || k == NodeKind::CompoundStatement || k == NodeKind::DoGroup
            || k == NodeKind::ElseClause || k == NodeKind::ElifClause { walk_block(nodes, src, i) }
        else if k == NodeKind::CaseItem { walk_case_item(nodes, src, i) }
        else if k == NodeKind::NegatedCommand { walk_negated(nodes, src, i) }
        else if k == NodeKind::FunctionDefinition { walk_function(nodes, src, i) }
        else if k == NodeKind::VariableAssignment { walk_single(n.start as int, n.end as int, None) }
        else if k == NodeKind::Comment || k == NodeKind::HeredocBody { walk_empty() }
        else if n.named { walk_single(n.start as int, n.end as int, None) }
        else { walk_empty() }
    }
}

/// `walk_ast` of child `c` of `p`.
pub open spec fn walk_at(nodes: Seq<Node>, src: Seq<char>, p: int, c: int) -> Walk
    decreases nodes.len() - p, 0nat, 0nat,
{
    if p < c < nodes.len() { walk_ast(nodes, src, c) } else { walk_empty() }
}

/// `walk_block` of child `c` of `p`.
pub open spec fn block_at(nodes: Seq<Node>, src: Seq<char>, p: int, c: int) -> Walk
    decreases nodes.len() - p, 0nat, 0nat,
{
    if p < c < nodes.len() { walk_block(nodes, src, c) } else { walk_empty() }
}

/// `walk_heredoc` of child `c` of `p`.
pub open spec fn heredoc_at(nodes: Seq<Node>, src: Seq<char>, p: int, c: int) -> Walk
    decreases nodes.len() - p, 0nat, 0nat,
{
    if p < c < nodes.len() { walk_heredoc(nodes, src, c) } else { walk_empty() }
}

/// `walk_case_item` of child `c` of `p`.
pub open spec fn case_item_at(nodes: Seq<Node>, src: Seq<char>, p: int, c: int) -> Walk
    decreases nodes.len() - p, 0nat, 0nat,
{
    if p < c < nodes.len() { walk_case_item(nodes, src, c) } else { walk_empty() }
}

/// The walks of `ks` (children of `p`) joined by `;`.
pub open spec fn semi_fold(nodes: Seq<Node>, src: Seq<char>, p: int, ks: Seq<int>) -> Walk
    decreases nodes.len() - p, 1nat, ks.len(),
{
    if ks.len() == 0 {
        walk_empty()
    } else {
        walk_append(semi_fold(nodes, src, p, ks.drop_last()), walk_at(nodes, src, p, ks.last()), Some(Operator::Semi))
    }
}

/// Blocks, programs, subshells, do-groups, else/elif clauses: named children
/// joined by `;`.
pub open spec fn walk_block(nodes: Seq<Node>, src: Seq<char>, i: int) -> Walk
    decreases nodes.len() - i, 2nat, 0nat,
{
    semi_fold(nodes, src, i, named_kids(nodes, i))
}

/// `list`: its two named children joined by its operator.
pub open spec fn walk_list(nodes: Seq<Node>, src: Seq<char>, i: int) -> Walk
    decreases nodes.len() - i, 2nat, 0nat,
{
    let ns = named_kids(nodes, i);
    if ns.len() < 2 {
        semi_fold(nodes, src, i, ns)
    } else {
        walk_append(walk_at(nodes, src, i, ns[0]), walk_at(nodes, src, i, ns[1]), Some(list_op(nodes, i)))
    }
}

/// `pipeline`: named children joined by the `|` / `|&` tokens before them.
pub open spec fn pipe_fold(nodes: Seq<Node>, src: Seq<char>, p: int, ks: Seq<int>) -> (Walk, Option<Operator>)
    decreases nodes.len() - p, 1nat, ks.len(),
{
    if ks.len() == 0 {
        (walk_empty(), None)
    } else {
        let (w, pending) = pipe_fold(nodes, src, p, ks.drop_last());
        let c = ks.last();
        let n = nodes[c];
        if n.named { (walk_append(w, walk_at(nodes, src, p, c), pending), None) }
        else if n.kind == NodeKind::Bar { (w, Some(Operator::Pipe)) }
        else if n.kind == NodeKind::BarAmp { (w, Some(Operator::PipeErr)) }
        else { (w, pending) }
    }
}

pub open spec fn walk_pipeline(nodes: Seq<Node>, src: Seq<char>, i: int) -> Walk
    decreases nodes.len() - i, 2nat, 0nat,
{
    pipe_fold(nodes, src, i, kids(nodes, i)).0
}

/// Loops: the `do` group; for `while`/`until` also the condition commands.
pub open spec fn loop_fold(nodes: Seq<Node>, src: Seq<char>, p: int, ks: Seq<int>) -> Walk
    decreases nodes.len() - p, 1nat, ks.len(),
{
    if ks.len() == 0 {
        walk_empty()
    } else {
        let w = loop_fold(nodes, src, p, ks.drop_last());
        let c = ks.last();
        if nodes[c].kind == NodeKind::DoGroup {
            walk_append(w, block_at(nodes, src, p, c), Some(Operator::Semi))
        } else if nodes[p].kind == NodeKind::WhileStatement || nodes[p].kind == NodeKind::UntilStatement {
            walk_append(w, walk_at(nodes, src, p, c), Some(Operator::Semi))
        } else {
            w
        }
    }
}

pub open spec fn walk_loop(nodes: Seq<Node>, src: Seq<char>, i: int) -> Walk
    decreases nodes.len() - i, 2nat, 0nat,
{
    loop_fold(nodes, src, i, named_kids(nodes, i))
}

/// Kinds of `if` children that hold commands.
pub open spec fn is_if_part(k: NodeKind) -> bool {
    ||| k == NodeKind::Command
    ||| k == NodeKind::DeclarationCommand
    ||| k == NodeKind::Pipeline
    ||| k == NodeKind::List
    ||| k == NodeKind::RedirectedStatement
    ||| k == NodeKind::CompoundStatement
    ||| k == NodeKind::Subshell
    ||| k == NodeKind::NegatedCommand
    ||| k == NodeKind::ElseClause
    ||| k == NodeKind::ElifClause
}

pub open spec fn if_fold(nodes: Seq<Node>, src: Seq<char>, p: int, ks: Seq<int>) -> Walk
    decreases nodes.len() - p, 1nat, ks.len(),
{
    if ks.len() == 0 {
        walk_empty()
    } else {
        let w = if_fold(nodes, src, p, ks.drop_last());
        let c = ks.last();
        if is_if_part(nodes[c].kind) { walk_append(w, walk_at(nodes, src, p, c), Some(Operator::Semi)) } else { w }
    }
}

/// `if`: condition, then-body and else/elif clauses.
pub open spec fn walk_if(nodes: Seq<Node>, src: Seq<char>, i: int) -> Walk
    decreases nodes.len() - i, 2nat, 0nat,
{
    if_fold(nodes, src, i, named_kids(nodes, i))
}

pub open spec fn case_fold(nodes: Seq<Node>, src: Seq<char>, p: int, ks: Seq<int>) -> Walk
    decreases nodes.len() - p, 1nat, ks.len(),
{
    if ks.len() == 0 {
        walk_empty()
    } else {
        let w = case_fold(nodes, src, p, ks.drop_last());
        let c = ks.last();
        if nodes[c].kind == NodeKind::CaseItem { walk_append(w, case_item_at(nodes, src, p, c), Some(Operator::Semi)) } else { w }
    }
}

/// `case`: the bodies of its items.
pub open spec fn walk_case(nodes: Seq<Node>, src: Seq<char>, i: int) -> Walk
    decreases nodes.len() - i, 2nat, 0nat,
{
    case_fold(nodes, src, i, named_kids(nodes, i))
}

/// A case item: the named children after the `)` token (not the patterns).
pub open spec fn item_fold(nodes: Seq<Node>, src: Seq<char>, p: int, ks: Seq<int>) -> (Walk, bool)
    decreases nodes.len() - p, 1nat, ks.len(),
{
    if ks.len() == 0 {
        (walk_empty(), false)
    } else {
        let (w, past) = item_fold(nodes, src, p, ks.drop_last());
        let c = ks.last();
        let n = nodes[c];
        if !n.named && n.kind == NodeKind::RParen { (w, true) }
        else if past && n.named { (walk_append(w, walk_at(nodes, src, p, c), Some(Operator::Semi)), past) }
        else { (w, past) }
    }
}

pub open spec fn walk_case_item(nodes: Seq<Node>, src: Seq<char>, i: int) -> Walk
    decreases nodes.len() - i, 2nat, 0nat,
{
    item_fold(nodes, src, i, kids(nodes, i)).0
}

/// `! cmd`: the first named child.
pub open spec fn walk_negated(nodes: Seq<Node>, src: Seq<char>, i: int) -> Walk
    decreases nodes.len() - i, 2nat, 0nat,
{
    let ns = named_kids(nodes, i);
    if ns.len() > 0 { walk_at(nodes, src, i, ns[0]) } else { walk_empty() }
}

/// A function definition: its compound-statement body.
pub open spec fn walk_function(nodes: Seq<Node>, src: Seq<char>, i: int) -> Walk
    decreases nodes.len() - i, 2nat, 0nat,
{
    match first_of_kind(nodes, named_kids(nodes, i), NodeKind::CompoundStatement) {
        Some(c) => block_at(nodes, src, i, c),
        None => walk_empty(),
    }
}

/// The heredoc walk state: segments so far, the start of pending loose
/// words and their end.
pub open spec fn heredoc_fold(nodes: Seq<Node>, src: Seq<char>, p: int, ks: Seq<int>) -> (Walk, Option<int>, int)
    decreases nodes.len() - p, 1nat, ks.len(),
{
    if ks.len() == 0 {
        (walk_empty(), None, 0)
    } else {
        let (w, loose, lend) = heredoc_fold(nodes, src, p, ks.drop_last());
        let c = ks.last();
        let k = nodes[c].kind;
        if k == NodeKind::Pipeline || k == NodeKind::List || k == NodeKind::Command || k == NodeKind::RedirectedStatement {
            let w1 = match loose {
                Some(s) => walk_append(w, walk_single(s, lend, None), Some(Operator::Semi)),
                None => w,
            };
            (walk_append(w1, walk_at(nodes, src, p, c), Some(heredoc_op_before(nodes, p, c))), None, lend)
        } else if k == NodeKind::Word {
            (w, if loose is None { Some(nodes[c].start as int) } else { loose }, nodes[c].end as int)
        } else {
            (w, loose, lend)
        }
    }
}

/// `heredoc_redirect`: commands on the same line as the heredoc marker
/// (pipelines, lists, commands; loose words become one segment).
pub open spec fn walk_heredoc(nodes: Seq<Node>, src: Seq<char>, i: int) -> Walk
    decreases nodes.len() - i, 2nat, 0nat,
{
    let (w, loose, lend) = heredoc_fold(nodes, src, i, named_kids(nodes, i));
    match loose {
        Some(s) => walk_append(w, walk_single(s, lend, None), Some(Operator::Semi)),
        None => w,
    }
}

/// The first heredoc redirect among `ks` that carries same-line commands,
/// with their walk.
pub open spec fn hd_search(nodes: Seq<Node>, src: Seq<char>, p: int, ks: Seq<int>) -> Option<(int, Walk)>
    decreases nodes.len() - p, 1nat, ks.len(),
{
    if ks.len() == 0 {
        None
    } else {
        let prev = hd_search(nodes, src, p, ks.drop_last());
        let c = ks.last();
        if prev is Some { prev }
        else if nodes[c].kind == NodeKind::HeredocRedirect {
            let inner = heredoc_at(nodes, src, p, c);
            if inner.segs.len() > 0 { Some((c, inner)) } else { None }
        } else { None }
    }
}

/// `redirected_statement`: a body with redirects. A heredoc with same-line
/// commands joins the body to them; a leaf body becomes one segment whose
/// text keeps the redirect tokens (heredoc bodies cut off); a compound body
/// is entered and hands the redirection down.
pub open spec fn walk_redirected(nodes: Seq<Node>, src: Seq<char>, i: int) -> Walk
    decreases nodes.len() - i, 2nat, 0nat,
{
    let redir = detect(nodes, src, i);
    let ns = named_kids(nodes, i);
    match hd_search(nodes, src, i, ns) {
        Some((c, inner)) => {
            let full = match body_of(nodes, ns, true) {
                Some(b) => if is_leaf_kind(nodes[b].kind) {
                    let e = effective_end(nodes, i);
                    let end = if (nodes[c].start as int) < e { nodes[c].start as int } else { e };
                    walk_append(walk_empty(), walk_single(nodes[b].start as int, end, redir), None)
                } else {
                    walk_append(walk_empty(), propagate(walk_at(nodes, src, i, b), redir), None)
                },
                None => walk_empty(),
            };
            walk_append(full, inner, Some(heredoc_join_op(nodes, c)))
        },
        None => match body_of(nodes, ns, false) {
            Some(b) => if is_leaf_kind(nodes[b].kind) {
                walk_single(nodes[i].start as int, effective_end(nodes, i), redir)
            } else {
                propagate(walk_at(nodes, src, i, b), redir)
            },
            None => walk_single(nodes[i].start as int, effective_end(nodes, i), redir),
        },
    }
}

} // verus!
