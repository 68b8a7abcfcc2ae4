//! Output redirection detection on the syntax tree.
//!
//! Safe (no redirection reported): input redirects (`<`, `<<`, `<<<`, `<&`),
//! anything aimed at `/dev/null`, duplication onto the standard streams
//! (`>&1`, `2>&1`, ...), and closing (`>&-`). Reported: `>`, `>>`, `>|`,
//! `&>`, `&>>` to any other target, `<>` (read-write), and `>&N` with a
//! custom descriptor `N`. Heredoc bodies are never inspected.

use vstd::prelude::*;
use crate::syntax::{Node, NodeKind, byte_text, text_between};
use crate::text::{concat2, concat3, contains_seq, str_contains, str_eq};
use crate::tree::{as_ints, children, kids};
use crate::types::{Redirection, redir_view};

verus! {

/// The text of node `i`.
pub open spec fn node_text(nodes: Seq<Node>, src: Seq<char>, i: int) -> Seq<char> {
    byte_text(src, nodes[i].start as int, nodes[i].end as int)
}

/// What a `file_redirect` node consists of: file descriptor, operator
/// (`Other` when there is none) and destination.
pub struct RedirParts {
    pub fd: Option<Seq<char>>,
    pub op: NodeKind,
    pub dest: Seq<char>,
}

/// Redirection operator tokens.
pub open spec fn is_redirect_op(k: NodeKind) -> bool {
    ||| k == NodeKind::Gt
    ||| k == NodeKind::GtGt
    ||| k == NodeKind::GtBar
    ||| k == NodeKind::AmpGt
    ||| k == NodeKind::AmpGtGt
    ||| k == NodeKind::GtAmp
    ||| k == NodeKind::Lt
    ||| k == NodeKind::LtLtLt
    ||| k == NodeKind::LtLt
    ||| k == NodeKind::LtAmp
}

/// The parts read from the children `ks` of a `file_redirect`: the last
/// file descriptor, the last other named child as destination, the last
/// operator token.
pub open spec fn redirect_parts(nodes: Seq<Node>, src: Seq<char>, ks: Seq<int>) -> RedirParts
    decreases ks.len(),
{
    if ks.len() == 0 {
        RedirParts { fd: None, op: NodeKind::Other, dest: Seq::empty() }
    } else {
        let st = redirect_parts(nodes, src, ks.drop_last());
        let c = ks.last();
        if nodes[c].kind == NodeKind::FileDescriptor {
            RedirParts { fd: Some(node_text(nodes, src, c)), ..st }
        } else if nodes[c].named {
            RedirParts { dest: node_text(nodes, src, c), ..st }
        } else if is_redirect_op(nodes[c].kind) {
            RedirParts { op: nodes[c].kind, ..st }
        } else {
            st
        }
    }
}

/// The text of an output operator.
pub open spec fn op_symbol(k: NodeKind) -> Seq<char> {
    if k == NodeKind::Gt { ">"@ }
    else if k == NodeKind::GtGt { ">>"@ }
    else if k == NodeKind::GtBar { ">|"@ }
    else if k == NodeKind::AmpGt { "&>"@ }
    else if k == NodeKind::AmpGtGt { "&>>"@ }
    else { Seq::empty() }
}

/// A standard stream descriptor: `0`, `1` or `2`.
pub open spec fn is_std_fd(d: Seq<char>) -> bool {
    d == "0"@ || d == "1"@ || d == "2"@
}

/// The verdict on one `file_redirect` node: the description of the output
/// redirection it makes, or `None` when it is harmless.
pub open spec fn file_redirect_check(nodes: Seq<Node>, src: Seq<char>, i: int) -> Option<Seq<char>> {
    let p = redirect_parts(nodes, src, kids(nodes, i));
    let op = p.op;
    if op == NodeKind::Other || op == NodeKind::Lt || op == NodeKind::LtLtLt || op == NodeKind::LtLt
        || op == NodeKind::LtAmp {
        if op == NodeKind::Lt && contains_seq(node_text(nodes, src, i), "<>"@) {
            Some("output redirection (<> read-write)"@)
        } else {
            None
        }
    } else if op == NodeKind::AmpGt || op == NodeKind::AmpGtGt {
        if p.dest == "/dev/null"@ {
            None
        } else {
            Some("output redirection ("@ + op_symbol(op) + ")"@)
        }
    } else if op == NodeKind::GtAmp {
        if p.dest == "-"@ {
            None
        } else if p.fd is Some {
            if is_std_fd(p.dest) {
                None
            } else {
                Some("output redirection ("@ + p.fd->0 + ">&"@ + p.dest + ", custom fd target)"@)
            }
        } else if is_std_fd(p.dest) {
            None
        } else {
            Some("output redirection (>&"@ + p.dest + ", custom fd target)"@)
        }
    } else if op == NodeKind::Gt || op == NodeKind::GtGt || op == NodeKind::GtBar {
        if p.dest == "/dev/null"@ {
            None
        } else if p.fd is Some {
            Some("output redirection ("@ + p.fd->0 + op_symbol(op) + ")"@)
        } else {
            Some("output redirection ("@ + op_symbol(op) + ")"@)
        }
    } else {
        None
    }
}

/// The first output redirection found in the subtree of `i` (children in
/// order), skipping heredoc bodies.
pub open spec fn detect(nodes: Seq<Node>, src: Seq<char>, i: int) -> Option<Seq<char>>
    decreases nodes.len() - i, 1nat, 0nat,
{
    if i < 0 || i >= nodes.len() {
        None
    } else if nodes[i].kind == NodeKind::FileRedirect {
        file_redirect_check(nodes, src, i)
    } else if nodes[i].kind == NodeKind::HeredocBody {
        None
    } else {
        detect_fold(nodes, src, i, kids(nodes, i))
    }
}

/// The first redirection found among the subtrees of `ks` (children of `p`).
pub open spec fn detect_fold(nodes: Seq<Node>, src: Seq<char>, p: int, ks: Seq<int>) -> Option<Seq<char>>
    decreases nodes.len() - p, 0nat, ks.len(),
{
    if ks.len() == 0 {
        None
    } else {
        match detect_fold(nodes, src, p, ks.drop_last()) {
            Some(r) => Some(r),
            None => {
                let c = ks.last();
                if p < c < nodes.len() { detect(nodes, src, c) } else { None }
            },
        }
    }
}

/// The symbol of an output operator.
fn op_symbol_str(k: NodeKind) -> (s: &'static str)
    ensures
        s@ == op_symbol(k),
{
    match k {
        NodeKind::Gt => ">",
        NodeKind::GtGt => ">>",
        NodeKind::GtBar => ">|",
        NodeKind::AmpGt => "&>",
        NodeKind::AmpGtGt => "&>>",
        _ => {
            let e = "";
            proof { reveal_strlit(""); }
            assert(e@ == Seq::<char>::empty());
            e
        }
    }
}

fn std_fd(d: &str) -> (r: bool)
    ensures
        r == is_std_fd(d@),
{
    str_eq(d, "0") || str_eq(d, "1") || str_eq(d, "2")
}

/// Inspects one `file_redirect` node.
pub fn check_file_redirect(nodes: &Vec<Node>, src: &[char], i: usize) -> (r: Option<Redirection>)
    requires
        i < nodes.len(),
    ensures
        redir_view(r) == file_redirect_check(nodes@, src@, i as int),
{
    let ks = children(nodes, i, false);
    let mut fd: Option<String> = None;
    let mut op = NodeKind::Other;
    let mut dest = String::new();
    let mut idx: usize = 0;
    while idx < ks.len()
        invariant
            idx <= ks.len(),
            as_ints(ks@) == kids(nodes@, i as int),
            forall|k: int| 0 <= k < ks.len() ==> i < #[trigger] ks@[k] < nodes.len(),
            ({
                let p = redirect_parts(nodes@, src@, as_ints(ks@).take(idx as int));
                &&& op == p.op
                &&& dest@ == p.dest
                &&& (match fd { Some(f) => p.fd == Some(f@), None => p.fd is None })
            }),
        decreases ks.len() - idx,
    {
        let c = ks[idx];
        proof {
            assert(as_ints(ks@).take(idx + 1).drop_last() == as_ints(ks@).take(idx as int));
            assert(as_ints(ks@).take(idx + 1).last() == c as int);
        }
        let n = nodes[c];
        if n.kind == NodeKind::FileDescriptor {
            fd = Some(text_between(src, n.start, n.end));
        } else if n.named {
            dest = text_between(src, n.start, n.end);
        } else if n.kind == NodeKind::Gt || n.kind == NodeKind::GtGt || n.kind == NodeKind::GtBar
            || n.kind == NodeKind::AmpGt || n.kind == NodeKind::AmpGtGt || n.kind == NodeKind::GtAmp
            || n.kind == NodeKind::Lt || n.kind == NodeKind::LtLtLt || n.kind == NodeKind::LtLt
            || n.kind == NodeKind::LtAmp {
            op = n.kind;
        }
        idx = idx + 1;
    }
    assert(as_ints(ks@).take(ks.len() as int) == as_ints(ks@));
    if op == NodeKind::Other || op == NodeKind::Lt || op == NodeKind::LtLtLt || op == NodeKind::LtLt
        || op == NodeKind::LtAmp {
        if op == NodeKind::Lt {
            let t = text_between(src, nodes[i].start, nodes[i].end);
            if str_contains(t.as_str(), "<>") {
                return Some(Redirection { description: String::from_str("output redirection (<> read-write)") });
            }
        }
        return None;
    }
    if op == NodeKind::AmpGt || op == NodeKind::AmpGtGt {
        if str_eq(dest.as_str(), "/dev/null") {
            return None;
        }
        return Some(Redirection { description: concat3("output redirection (", op_symbol_str(op), ")") });
    }
    if op == NodeKind::GtAmp {
        if str_eq(dest.as_str(), "-") {
            return None;
        }
        match fd {
            Some(f) => {
                if std_fd(dest.as_str()) {
                    return None;
                }
                let a = concat3("output redirection (", f.as_str(), ">&");
                return Some(Redirection { description: concat3(a.as_str(), dest.as_str(), ", custom fd target)") });
            },
            None => {
                if std_fd(dest.as_str()) {
                    return None;
                }
                return Some(Redirection {
                    description: concat3("output redirection (>&", dest.as_str(), ", custom fd target)"),
                });
            },
        }
    }
    if op == NodeKind::Gt || op == NodeKind::GtGt || op == NodeKind::GtBar {
        if str_eq(dest.as_str(), "/dev/null") {
            return None;
        }
        match fd {
            Some(f) => {
                let a = concat2("output redirection (", f.as_str());
                return Some(Redirection { description: concat3(a.as_str(), op_symbol_str(op), ")") });
            },
            None => {
                return Some(Redirection { description: concat3("output redirection (", op_symbol_str(op), ")") });
            },
        }
    }
    None
}

/// The first output redirection in the subtree of `i`.
pub fn detect_redirections(nodes: &Vec<Node>, src: &[char], i: usize) -> (r: Option<Redirection>)
    requires
        i < nodes.len(),
    ensures
        redir_view(r) == detect(nodes@, src@, i as int),
    decreases nodes.len() - i,
{
    let n = nodes[i];
    if n.kind == NodeKind::FileRedirect {
        return check_file_redirect(nodes, src, i);
    }
    if n.kind == NodeKind::HeredocBody {
        return None;
    }
    let ks = children(nodes, i, false);
    let mut found: Option<Redirection> = None;
    let mut idx: usize = 0;
    while idx < ks.len()
        invariant
            i < nodes.len(),
            idx <= ks.len(),
            as_ints(ks@) == kids(nodes@, i as int),
            forall|k: int| 0 <= k < ks.len() ==> i < #[trigger] ks@[k] < nodes.len(),
            redir_view(found) == detect_fold(nodes@, src@, i as int, as_ints(ks@).take(idx as int)),
        decreases ks.len() - idx,
    {
        let c = ks[idx];
        proof {
            assert(as_ints(ks@).take(idx + 1).drop_last() == as_ints(ks@).take(idx as int));
            assert(as_ints(ks@).take(idx + 1).last() == c as int);
        }
        if found.is_none() {
            found = detect_redirections(nodes, src, c);
        }
        idx = idx + 1;
    }
    assert(as_ints(ks@).take(ks.len() as int) == as_ints(ks@));
    found
}

} // verus!
