//! Decomposition of a command line into segments, operators and
//! substitutions, and the output-redirection check of a whole command.
//!
//! A command that is one plain statement without substitutions is kept as
//! it was written (trimmed), so that the evaluation sees the exact input.
//! Otherwise each segment's text has its substitutions replaced by
//! `__SUBST__`, segments left empty are dropped, and the inner commands of
//! the outermost substitutions are returned in source order.

use vstd::prelude::*;
use crate::redirect::{detect, detect_redirections};
use crate::subst::{Span, spans_of, spans_view, replaced_text, collect_substitutions, text_replacing_substitutions};
use crate::syntax::{Node, bash_tree, bash_syntax, utf8_width, char_width};
use crate::text::{trim, trim_end, views, chars_of, trim_str, trim_end_len};
use crate::types::{Operator, Redirection, ShellSegment, ParsedPipeline, segment_view, redir_view, copy_redirection};
use crate::walk::{Seg, Walk, walk_ast, walk_wf};
use crate::walker::{WalkResult, walk_of, seg_of};

verus! {

/// The number of UTF-8 bytes of `s`.
pub open spec fn utf8_len(s: Seq<char>) -> nat
    decreases s.len(),
{
    if s.len() == 0 { 0 } else { utf8_len(s.drop_last()) + utf8_width(s.last()) }
}

/// A decomposed command line: segments (text and inherited redirection),
/// the operators between them, and the inner commands of substitutions.
pub struct Decomposition {
    pub segments: Seq<(Seq<char>, Option<Seq<char>>)>,
    pub operators: Seq<Operator>,
    pub substitutions: Seq<Seq<char>>,
}

/// One statement spanning the whole (right-trimmed) input, no substitutions.
pub open spec fn is_trivial(w: Walk, spans: Seq<Span>, src: Seq<char>) -> bool {
    &&& w.segs.len() <= 1
    &&& spans.len() == 0
    &&& (w.segs.len() == 0 || (w.segs[0].start == 0 && w.segs[0].end >= utf8_len(trim_end(src))))
}

/// The segments' texts with substitutions replaced and whitespace trimmed;
/// segments whose text is then empty are left out.
pub open spec fn segment_texts(src: Seq<char>, segs: Seq<Seg>, spans: Seq<Span>) -> Seq<(Seq<char>, Option<Seq<char>>)>
    decreases segs.len(),
{
    if segs.len() == 0 {
        Seq::empty()
    } else {
        let prev = segment_texts(src, segs.drop_last(), spans);
        let s = segs.last();
        let t = trim(replaced_text(src, s.start, s.end, spans));
        if t.len() > 0 { prev.push((t, s.redir)) } else { prev }
    }
}

/// The decomposition of `src` given its syntax tree `nodes` (root first).
pub open spec fn decomposition(src: Seq<char>, nodes: Seq<Node>) -> Decomposition {
    let w = walk_ast(nodes, src, 0);
    let spans = spans_of(nodes, src, 0);
    if is_trivial(w, spans, src) {
        let redir = if w.segs.len() > 0 && w.segs[0].redir is Some { w.segs[0].redir } else { detect(nodes, src, 0) };
        Decomposition { segments: seq![(trim(src), redir)], operators: Seq::empty(), substitutions: Seq::empty() }
    } else {
        Decomposition {
            segments: segment_texts(src, w.segs, spans),
            operators: w.ops,
            substitutions: spans.map_values(|s: Span| s.inner),
        }
    }
}

/// Whether decomposing `src` left out a segment whose text was empty (the
/// operators next to it are kept).
pub open spec fn drops_segment(src: Seq<char>, nodes: Seq<Node>) -> bool {
    let w = walk_ast(nodes, src, 0);
    let spans = spans_of(nodes, src, 0);
    !is_trivial(w, spans, src) && segment_texts(src, w.segs, spans).len() < w.segs.len()
}

/// Whether the walk of `src` put an operator between every two consecutive
/// segments it found.
pub open spec fn keeps_operators(src: Seq<char>, nodes: Seq<Node>) -> bool {
    walk_ast(nodes, src, 0).unjoined == 0
}

/// One operator between each two consecutive segments: one fewer than
/// segments, and none without segments.
pub open spec fn one_operator_per_gap(p: ParsedPipeline) -> bool {
    if p.segments@.len() == 0 {
        p.operators@.len() == 0
    } else {
        p.operators@.len() + 1 == p.segments@.len()
    }
}

/// A command that is one plain statement spanning the whole input, without
/// substitutions, is kept as written: one segment holding the trimmed
/// input, no operators, no substitutions.
pub proof fn law_plain_command_kept(src: Seq<char>, nodes: Seq<Node>)
    requires
        is_trivial(walk_ast(nodes, src, 0), spans_of(nodes, src, 0), src),
    ensures
        decomposition(src, nodes).segments.len() == 1,
        decomposition(src, nodes).segments[0].0 == trim(src),
        decomposition(src, nodes).operators.len() == 0,
        decomposition(src, nodes).substitutions.len() == 0,
{
}

/// The plain view of a pipeline's segments.
pub open spec fn segments_view(p: ParsedPipeline) -> Seq<(Seq<char>, Option<Seq<char>>)> {
    p.segments@.map_values(|s: ShellSegment| segment_view(s))
}

/// Whether the UTF-8 encoding of `s` has at most `limit` bytes.
fn bytes_within(s: &[char], limit: usize) -> (r: bool)
    ensures
        r == (utf8_len(s@) <= limit),
{
    let mut acc: usize = 0;
    let mut i: usize = 0;
    while i < s.len()
        invariant
            i <= s.len(),
            acc == utf8_len(s@.take(i as int)),
            acc <= limit,
        decreases s.len() - i,
    {
        assert(s@.take(i + 1).drop_last() == s@.take(i as int));
        let w = char_width(s[i]);
        if w > limit - acc {
            proof { lemma_utf8_len_prefix(s@, i + 1); }
            return false;
        }
        acc = acc + w;
        i = i + 1;
    }
    assert(s@.take(s.len() as int) == s@);
    true
}

/// Dropping empty texts never adds segments.
proof fn lemma_segment_texts_len(src: Seq<char>, segs: Seq<Seg>, spans: Seq<Span>)
    ensures
        segment_texts(src, segs, spans).len() <= segs.len(),
    decreases segs.len(),
{
    if segs.len() > 0 {
        lemma_segment_texts_len(src, segs.drop_last(), spans);
    }
}

/// A longer prefix has at least as many bytes.
proof fn lemma_utf8_len_prefix(s: Seq<char>, k: int)
    requires
        0 <= k <= s.len(),
    ensures
        utf8_len(s.take(k)) <= utf8_len(s),
    decreases s.len() - k,
{
    if k < s.len() {
        lemma_utf8_len_prefix(s, k + 1);
        assert(s.take(k + 1).drop_last() == s.take(k));
    } else {
        assert(s.take(k) == s);
    }
}

/// Decomposes `command`, whose bash syntax tree is `nodes`, into segments,
/// operators and substitutions.
pub fn decompose(command: &str, nodes: &Vec<Node>) -> (r: (ParsedPipeline, Vec<String>))
    ensures
        segments_view(r.0) == decomposition(command@, nodes@).segments,
        r.0.operators@ == decomposition(command@, nodes@).operators,
        views(r.1@) == decomposition(command@, nodes@).substitutions,
        !drops_segment(command@, nodes@) ==> r.0.operators@.len() == 0
            || r.0.operators@.len() < r.0.segments@.len(),
        !drops_segment(command@, nodes@) && keeps_operators(command@, nodes@)
            ==> one_operator_per_gap(r.0),
        keeps_operators(command@, nodes@) ==> r.0.segments@.len() == 0
            || r.0.operators@.len() + 1 >= r.0.segments@.len(),
{
    let chars = chars_of(command);
    let src = chars.as_slice();
    let (spans, walk) = if nodes.len() > 0 {
        (collect_substitutions(nodes, src, 0), walk_ast_root(nodes, src))
    } else {
        (Vec::new(), WalkResult::empty())
    };
    proof {
        if nodes.len() == 0 {
            assert(spans_view(spans@) =~= spans_of(nodes@, command@, 0));
        }
    }
    let ghost w = walk_of(walk);
    assert(walk_wf(w));
    let trivial = walk.segments.len() <= 1 && spans.len() == 0 && (walk.segments.len() == 0 || (
        walk.segments[0].start == 0 && bytes_within(slice_to(src, trim_end_len(src)), walk.segments[0].end)));
    if trivial {
        assert(w.segs.len() > 0 ==> w.segs[0] == seg_of(walk.segments@[0]));
        let redir = if walk.segments.len() > 0 && walk.segments[0].redirection.is_some() {
            copy_redirection(&walk.segments[0].redirection)
        } else if nodes.len() > 0 {
            detect_redirections(nodes, src, 0)
        } else {
            None
        };
        let seg = ShellSegment { command: trim_str(command), redirection: redir };
        let p = ParsedPipeline { segments: vec![seg], operators: Vec::new() };
        let subs: Vec<String> = Vec::new();
        assert(segments_view(p) =~= seq![segment_view(seg)]);
        assert(views(subs@) =~= Seq::<Seq<char>>::empty());
        return (p, subs);
    }
    let mut subs: Vec<String> = Vec::new();
    let mut k: usize = 0;
    while k < spans.len()
        invariant
            k <= spans.len(),
            views(subs@) == spans_view(spans@).take(k as int).map_values(|s: Span| s.inner),
        decreases spans.len() - k,
    {
        let ghost before = subs@;
        let inner = spans[k].inner.clone();
        subs.push(inner);
        assert(spans_view(spans@)[k as int].inner == spans@[k as int].inner@);
        assert(views(subs@) =~= views(before).push(inner@));
        assert(spans_view(spans@).take(k + 1).map_values(|s: Span| s.inner)
            =~= spans_view(spans@).take(k as int).map_values(|s: Span| s.inner).push(spans_view(spans@)[k as int].inner));
        k = k + 1;
    }
    assert(spans_view(spans@).take(spans.len() as int) == spans_view(spans@));
    let mut segs: Vec<ShellSegment> = Vec::new();
    let mut i: usize = 0;
    assert(src@ == command@);
    assert(segs@.map_values(|x: ShellSegment| segment_view(x)) =~= Seq::<(Seq<char>, Option<Seq<char>>)>::empty());
    while i < walk.segments.len()
        invariant
            i <= walk.segments.len(),
            w == walk_of(walk),
            src@ == command@,
            segs@.map_values(|s: ShellSegment| segment_view(s))
                == segment_texts(command@, w.segs.take(i as int), spans_view(spans@)),
        decreases walk.segments.len() - i,
    {
        let s = &walk.segments[i];
        assert(w.segs.take(i + 1).drop_last() == w.segs.take(i as int));
        assert(w.segs.take(i + 1).last() == seg_of(*s));
        let text = text_replacing_substitutions(src, s.start, s.end, &spans);
        let t = trim_str(text.as_str());
        assert(src@ == command@);
        assert(t@ == trim(replaced_text(command@, seg_of(*s).start, seg_of(*s).end, spans_view(spans@))));
        if !t.as_str().is_empty() {
            let seg = ShellSegment { command: t, redirection: copy_redirection(&s.redirection) };
            let ghost before = segs@;
            segs.push(seg);
            assert(segs@.map_values(|x: ShellSegment| segment_view(x))
                =~= before.map_values(|x: ShellSegment| segment_view(x)).push(segment_view(seg)));
        }
        i = i + 1;
    }
    assert(w.segs.take(walk.segments.len() as int) == w.segs);
    assert(segs@.len() == segs@.map_values(|x: ShellSegment| segment_view(x)).len());
    proof { lemma_segment_texts_len(command@, w.segs, spans_view(spans@)); }
    let p = ParsedPipeline { segments: segs, operators: walk.operators };
    (p, subs)
}

/// The walk of the root node.
fn walk_ast_root(nodes: &Vec<Node>, src: &[char]) -> (r: WalkResult)
    requires
        nodes.len() > 0,
    ensures
        walk_of(r) == walk_ast(nodes@, src@, 0),
        walk_wf(walk_of(r)),
{
    crate::walker::walk_ast(nodes, src, 0)
}

/// The first `n` characters of `s`.
fn slice_to(s: &[char], n: usize) -> (r: &[char])
    requires
        n <= s.len(),
    ensures
        r@ == s@.take(n as int),
{
    crate::text::slice_range(s, 0, n)
}

/// Parses `command` with the bash grammar and decomposes it into segments
/// joined by operators, with the inner commands of its outermost
/// substitutions.
pub fn parse_with_substitutions(command: &str) -> (r: (ParsedPipeline, Vec<String>))
    ensures
        segments_view(r.0) == decomposition(command@, bash_tree(command@)).segments,
        r.0.operators@ == decomposition(command@, bash_tree(command@)).operators,
        views(r.1@) == decomposition(command@, bash_tree(command@)).substitutions,
        !drops_segment(command@, bash_tree(command@)) ==> r.0.operators@.len() == 0
            || r.0.operators@.len() < r.0.segments@.len(),
        !drops_segment(command@, bash_tree(command@)) && keeps_operators(command@, bash_tree(command@))
            ==> one_operator_per_gap(r.0),
        keeps_operators(command@, bash_tree(command@)) ==> r.0.segments@.len() == 0
            || r.0.operators@.len() + 1 >= r.0.segments@.len(),
{
    let nodes = bash_syntax(command);
    decompose(command, &nodes)
}

/// The output redirection that `command` makes, if any (the first one
/// found in its syntax tree).
pub fn has_output_redirection(command: &str) -> (r: Option<Redirection>)
    ensures
        redir_view(r) == detect(bash_tree(command@), command@, 0),
{
    let nodes = bash_syntax(command);
    if nodes.len() == 0 {
        return None;
    }
    let chars = chars_of(command);
    detect_redirections(&nodes, chars.as_slice(), 0)
}

} // verus!
