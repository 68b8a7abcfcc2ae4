//! A diagnostic dump of a command: the tree-sitter nodes, the segments and
//! operators, the substitutions and the output redirection.

use vstd::prelude::*;
use crate::redirect::{detect, detect_redirections};
use crate::shell::{decomposition, decompose};
use crate::syntax::{SyntaxNode, node_of, bash_nodes, byte_text, bash_syntax_nodes, classify_nodes, text_between};
use crate::text::{take_at_most, decimal, chars_of, prefix_chars, decimal_string};
use crate::types::{Operator, operator_text, redir_view};

verus! {

/// The text of a string as Rust's `Debug` formatting writes it: quoted,
/// with quotes, backslashes and control characters escaped.
pub uninterp spec fn debug_quoted(s: Seq<char>) -> Seq<char>;

/// `s` formatted with `{:?}` (`<str as Debug>::fmt`).
#[verifier::external_body]
fn debug_str(s: &str) -> (r: String)
    ensures
        r@ == debug_quoted(s@),
{
    format!("{:?}", s)
}

/// `d` levels of indentation, two spaces each.
pub open spec fn indent(d: nat) -> Seq<char>
    decreases d,
{
    if d == 0 { Seq::empty() } else { indent((d - 1) as nat) + "  "@ }
}

/// The line of one node: indentation by depth, kind, namedness, and the
/// first 60 characters of its text.
pub open spec fn node_line(src: Seq<char>, n: SyntaxNode) -> Seq<char> {
    indent(n.depth as nat) + n.kind@ + " ["@ + (if n.named { "named"@ } else { "anon"@ }) + "] "@
        + debug_quoted(take_at_most(byte_text(src, n.start_byte as int, n.end_byte as int), 60)) + "\n"@
}

/// The lines of the nodes, in order.
pub open spec fn tree_section(src: Seq<char>, raw: Seq<SyntaxNode>) -> Seq<char>
    decreases raw.len(),
{
    if raw.len() == 0 { Seq::empty() } else { tree_section(src, raw.drop_last()) + node_line(src, raw.last()) }
}

/// The line of segment `i`, and the operator after it when there is one.
pub open spec fn segment_piece(segs: Seq<(Seq<char>, Option<Seq<char>>)>, ops: Seq<Operator>, i: int) -> Seq<char> {
    "  segment "@ + decimal(i as nat) + ": "@ + debug_quoted(segs[i].0)
        + (match segs[i].1 { Some(r) => " ["@ + r + "]"@, None => Seq::empty() }) + "\n"@
        + (if i < ops.len() { "  operator: "@ + operator_text(ops[i]) + "\n"@ } else { Seq::empty() })
}

/// The lines of the first `n` segments.
pub open spec fn segment_section(segs: Seq<(Seq<char>, Option<Seq<char>>)>, ops: Seq<Operator>, n: int) -> Seq<char>
    decreases n,
{
    if n <= 0 { Seq::empty() } else { segment_section(segs, ops, n - 1) + segment_piece(segs, ops, n - 1) }
}

/// The lines of the first `n` substitutions.
pub open spec fn subst_section(subs: Seq<Seq<char>>, n: int) -> Seq<char>
    decreases n,
{
    if n <= 0 {
        Seq::empty()
    } else {
        let i = n - 1;
        subst_section(subs, i) + "  "@ + decimal(i as nat) + ": "@ + debug_quoted(subs[i]) + "\n"@
    }
}

/// The dump of `src` whose tree-sitter nodes are `raw`.
pub open spec fn ast_dump(src: Seq<char>, raw: Seq<SyntaxNode>) -> Seq<char> {
    let nodes = raw.map_values(|n: SyntaxNode| node_of(n));
    let d = decomposition(src, nodes);
    "── tree-sitter AST ──\n"@ + tree_section(src, raw) + "\n── parsed pipeline ──\n"@
        + segment_section(d.segments, d.operators, d.segments.len() as int)
        + (if d.substitutions.len() > 0 {
            "\n── substitutions ──\n"@ + subst_section(d.substitutions, d.substitutions.len() as int)
        } else {
            Seq::empty()
        })
        + "\n── output redirection ──\n"@
        + (match detect(nodes, src, 0) {
            Some(r) => "  "@ + r + "\n"@,
            None => "  (none)\n"@,
        })
}

/// Two spaces per level.
fn indent_str(d: usize) -> (r: String)
    ensures
        r@ == indent(d as nat),
{
    let mut r = String::new();
    let mut k: usize = 0;
    while k < d
        invariant
            k <= d,
            r@ == indent(k as nat),
        decreases d - k,
    {
        r.append("  ");
        k = k + 1;
    }
    r
}

/// The dump lines of segment `k` of `p`.
fn segment_text(p: &crate::types::ParsedPipeline, k: usize) -> (r: String)
    requires
        k < p.segments.len(),
    ensures
        r@ == segment_piece(crate::shell::segments_view(*p), p.operators@, k as int),
{
    let ghost segs = crate::shell::segments_view(*p);
    let ghost ops = p.operators@;
    let seg = &p.segments[k];
    assert(segs[k as int] == (seg.command@, redir_view(seg.redirection)));
    let mut out = String::from_str("  segment ");
    let num = decimal_string(k);
    out.append(num.as_str());
    out.append(": ");
    let q = debug_str(seg.command.as_str());
    out.append(q.as_str());
    let ghost with_cmd = out@;
    match &seg.redirection {
        Some(r) => {
            out.append(" [");
            out.append(r.description.as_str());
            out.append("]");
        },
        None => {
            assert(out@ =~= with_cmd + Seq::<char>::empty());
        },
    }
    out.append("\n");
    let ghost with_line = out@;
    if k < p.operators.len() {
        out.append("  operator: ");
        out.append(p.operators[k].as_str());
        out.append("\n");
    } else {
        assert(out@ =~= with_line + Seq::<char>::empty());
    }
    out
}

/// The dump of `command` whose tree-sitter nodes are `raw`.
pub fn render_dump(command: &str, raw: &Vec<SyntaxNode>) -> (r: String)
    ensures
        r@ == ast_dump(command@, raw@),
{
    let chars = chars_of(command);
    let src = chars.as_slice();
    let mut out = String::from_str("── tree-sitter AST ──\n");
    let ghost head = out@;
    let mut i: usize = 0;
    while i < raw.len()
        invariant
            i <= raw.len(),
            src@ == command@,
            head == "── tree-sitter AST ──\n"@,
            out@ == head + tree_section(command@, raw@.take(i as int)),
        decreases raw.len() - i,
    {
        let n = &raw[i];
        assert(raw@.take(i + 1).drop_last() == raw@.take(i as int));
        assert(raw@.take(i + 1).last() == *n);
        let ghost before = out@;
        let ind = indent_str(n.depth);
        out.append(ind.as_str());
        out.append(n.kind.as_str());
        out.append(" [");
        if n.named {
            out.append("named");
        } else {
            out.append("anon");
        }
        out.append("] ");
        let text = text_between(src, n.start_byte, n.end_byte);
        let short = prefix_chars(text.as_str(), 60);
        let q = debug_str(short.as_str());
        out.append(q.as_str());
        out.append("\n");
        assert(out@ =~= before + node_line(command@, *n));
        i = i + 1;
    }
    assert(raw@.take(raw.len() as int) == raw@);
    let nodes = classify_nodes(raw);
    let (p, subs) = decompose(command, &nodes);
    let ghost d = decomposition(command@, nodes@);
    let ghost segs = d.segments;
    let ghost ops = d.operators;
    out.append("\n── parsed pipeline ──\n");
    let ghost mid = out@;
    let mut k: usize = 0;
    while k < p.segments.len()
        invariant
            k <= p.segments.len(),
            segs == crate::shell::segments_view(p),
            ops == p.operators@,
            out@ == mid + segment_section(segs, ops, k as int),
        decreases p.segments.len() - k,
    {
        let piece = segment_text(&p, k);
        out.append(piece.as_str());
        k = k + 1;
    }
    let ghost after_segs = out@;
    if subs.len() > 0 {
        out.append("\n── substitutions ──\n");
        let ghost sub_head = out@;
        let mut j: usize = 0;
        while j < subs.len()
            invariant
                j <= subs.len(),
                crate::text::views(subs@) == d.substitutions,
                out@ == sub_head + subst_section(d.substitutions, j as int),
            decreases subs.len() - j,
        {
            assert(d.substitutions[j as int] == subs@[j as int]@);
            let ghost before = out@;
            out.append("  ");
            let num = decimal_string(j);
            out.append(num.as_str());
            out.append(": ");
            let q = debug_str(subs[j].as_str());
            out.append(q.as_str());
            out.append("\n");
            assert(out@ =~= before + ("  "@ + decimal(j as nat) + ": "@ + debug_quoted(d.substitutions[j as int]) + "\n"@));
            assert(subst_section(d.substitutions, j + 1) =~= subst_section(d.substitutions, j as int)
                + ("  "@ + decimal(j as nat) + ": "@ + debug_quoted(d.substitutions[j as int]) + "\n"@));
            j = j + 1;
        }
    } else {
        assert(out@ =~= after_segs + Seq::<char>::empty());
    }
    let ghost after_subs = out@;
    out.append("\n── output redirection ──\n");
    let ghost redir_head = out@;
    let redir = if nodes.len() > 0 { detect_redirections(&nodes, src, 0) } else { None };
    match redir {
        Some(r) => {
            out.append("  ");
            out.append(r.description.as_str());
            out.append("\n");
        },
        None => {
            out.append("  (none)\n");
        },
    }
    assert(out@ =~= ast_dump(command@, raw@));
    out
}

/// The diagnostic dump of `command`, parsed as bash.
pub fn dump_ast(command: &str) -> (r: String)
    ensures
        r@ == ast_dump(command@, bash_nodes(command@)),
{
    let raw = bash_syntax_nodes(command);
    render_dump(command, &raw)
}

} // verus!
