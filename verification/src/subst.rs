//! Command and process substitutions: collection of the outermost `$()`,
//! backtick, `<()` and `>()` nodes, and replacement of their spans by the
//! placeholder `__SUBST__`.

use vstd::prelude::*;
use crate::redirect::node_text;
use crate::syntax::{Node, NodeKind, byte_text, text_between, utf8_width, char_width};
use crate::text::{chars_of, slice_range, str_starts_with, string_of, trim, trim_str};
use crate::tree::{as_ints, children, kids};

verus! {

/// A substitution: its byte range in the source and its inner command.
pub struct Span {
    pub start: int,
    pub end: int,
    pub inner: Seq<char>,
}

/// Whether `t` starts with `p`.
pub open spec fn starts_with(t: Seq<char>, p: Seq<char>) -> bool {
    p.len() <= t.len() && t.take(p.len() as int) == p
}

/// The inner command of a substitution's text: `$(cmd)`, `<(cmd)`, `>(cmd)`
/// and `` `cmd` `` give `cmd`, trimmed. When the closing character of a
/// parenthesised form is not a one-byte character the inner text is empty.
pub open spec fn strip_delims(t: Seq<char>) -> Seq<char> {
    let body = if starts_with(t, "$("@) || starts_with(t, "<("@) || starts_with(t, ">("@) {
        if t.len() >= 3 && utf8_width(t.last()) == 1 { t.subrange(2, t.len() - 1) } else { Seq::empty() }
    } else if t.len() >= 2 && t[0] == '`' && t.last() == '`' {
        t.subrange(1, t.len() - 1)
    } else {
        t
    };
    trim(body)
}

/// The outermost substitutions in the subtree of `i`, in source order;
/// those whose inner command is empty are left out.
pub open spec fn spans_of(nodes: Seq<Node>, src: Seq<char>, i: int) -> Seq<Span>
    decreases nodes.len() - i, 1nat, 0nat,
{
    if i < 0 || i >= nodes.len() {
        Seq::empty()
    } else if nodes[i].kind == NodeKind::CommandSubstitution || nodes[i].kind == NodeKind::ProcessSubstitution {
        let inner = strip_delims(node_text(nodes, src, i));
        if inner.len() > 0 {
            seq![Span { start: nodes[i].start as int, end: nodes[i].end as int, inner: inner }]
        } else {
            Seq::empty()
        }
    } else {
        spans_fold(nodes, src, i, kids(nodes, i))
    }
}

/// The substitutions in the subtrees of `ks` (children of `p`).
pub open spec fn spans_fold(nodes: Seq<Node>, src: Seq<char>, p: int, ks: Seq<int>) -> Seq<Span>
    decreases nodes.len() - p, 0nat, ks.len(),
{
    if ks.len() == 0 {
        Seq::empty()
    } else {
        let c = ks.last();
        spans_fold(nodes, src, p, ks.drop_last())
            + (if p < c < nodes.len() { spans_of(nodes, src, c) } else { Seq::empty() })
    }
}

/// The spans that lie within `[a, b]`, in order.
pub open spec fn relevant(spans: Seq<Span>, a: int, b: int) -> Seq<Span>
    decreases spans.len(),
{
    if spans.len() == 0 {
        Seq::empty()
    } else {
        let r = relevant(spans.drop_last(), a, b);
        let s = spans.last();
        if s.start >= a && s.end <= b { r.push(s) } else { r }
    }
}

/// The text from byte `pos` to byte `end` with each span of `rel` (taken in
/// order) replaced by `__SUBST__`.
pub open spec fn splice(src: Seq<char>, pos: int, end: int, rel: Seq<Span>) -> Seq<char>
    decreases rel.len(),
{
    if rel.len() == 0 {
        byte_text(src, pos, end)
    } else {
        byte_text(src, pos, rel[0].start) + "__SUBST__"@ + splice(src, rel[0].end, end, rel.drop_first())
    }
}

/// The source text between bytes `a` and `b` with the substitutions inside
/// that range replaced by `__SUBST__`.
pub open spec fn replaced_text(src: Seq<char>, a: int, b: int, spans: Seq<Span>) -> Seq<char> {
    splice(src, a, b, relevant(spans, a, b))
}

/// A substitution found in the source.
pub struct SubstSpan {
    /// Start byte of the whole substitution.
    pub start: usize,
    /// End byte of the whole substitution.
    pub end: usize,
    /// The inner command.
    pub inner: String,
}

/// The plain view of a substitution.
pub open spec fn span_view(s: SubstSpan) -> Span {
    Span { start: s.start as int, end: s.end as int, inner: s.inner@ }
}

/// The plain views of substitutions.
pub open spec fn spans_view(v: Seq<SubstSpan>) -> Seq<Span> {
    v.map_values(|s: SubstSpan| span_view(s))
}

/// Strips the delimiters of a substitution's text and trims the result.
pub fn strip_subst_delimiters(text: &str) -> (r: String)
    ensures
        r@ == strip_delims(text@),
{
    let t = chars_of(text);
    let n = t.len();
    if str_starts_with(text, "$(") || str_starts_with(text, "<(") || str_starts_with(text, ">(") {
        if n >= 3 && char_width(t[n - 1]) == 1 {
            let body = string_of(slice_range(t.as_slice(), 2, n - 1));
            trim_str(body.as_str())
        } else {
            let e = String::new();
            assert(trim(e@) == e@);
            e
        }
    } else if n >= 2 && t[0] == '`' && t[n - 1] == '`' {
        let body = string_of(slice_range(t.as_slice(), 1, n - 1));
        trim_str(body.as_str())
    } else {
        trim_str(text)
    }
}

/// The outermost substitutions in the subtree of `i`.
pub fn collect_substitutions(nodes: &Vec<Node>, src: &[char], i: usize) -> (r: Vec<SubstSpan>)
    requires
        i < nodes.len(),
    ensures
        spans_view(r@) == spans_of(nodes@, src@, i as int),
    decreases nodes.len() - i,
{
    let n = nodes[i];
    if n.kind == NodeKind::CommandSubstitution || n.kind == NodeKind::ProcessSubstitution {
        let full = text_between(src, n.start, n.end);
        let inner = strip_subst_delimiters(full.as_str());
        let mut out: Vec<SubstSpan> = Vec::new();
        if !inner.as_str().is_empty() {
            let sp = SubstSpan { start: n.start, end: n.end, inner };
            out.push(sp);
            assert(spans_view(out@) =~= seq![span_view(sp)]);
        } else {
            assert(spans_view(out@) =~= Seq::<Span>::empty());
        }
        return out;
    }
    let ks = children(nodes, i, false);
    let mut all: Vec<SubstSpan> = Vec::new();
    let mut idx: usize = 0;
    while idx < ks.len()
        invariant
            i < nodes.len(),
            idx <= ks.len(),
            as_ints(ks@) == kids(nodes@, i as int),
            forall|k: int| 0 <= k < ks.len() ==> i < #[trigger] ks@[k] < nodes.len(),
            spans_view(all@) == spans_fold(nodes@, src@, i as int, as_ints(ks@).take(idx as int)),
        decreases ks.len() - idx,
    {
        let c = ks[idx];
        proof {
            assert(as_ints(ks@).take(idx + 1).drop_last() == as_ints(ks@).take(idx as int));
            assert(as_ints(ks@).take(idx + 1).last() == c as int);
        }
        let mut sub = collect_substitutions(nodes, src, c);
        let ghost before = all@;
        let ghost added = sub@;
        all.append(&mut sub);
        assert(spans_view(all@) =~= spans_view(before) + spans_view(added));
        idx = idx + 1;
    }
    assert(as_ints(ks@).take(ks.len() as int) == as_ints(ks@));
    all
}

/// Indices of the spans that lie within `[a, b]`.
fn relevant_indices(spans: &Vec<SubstSpan>, a: usize, b: usize) -> (r: Vec<usize>)
    ensures
        r@.len() == relevant(spans_view(spans@), a as int, b as int).len(),
        forall|k: int| 0 <= k < r@.len() ==> #[trigger] r@[k] < spans.len()
            && span_view(spans@[r@[k] as int]) == relevant(spans_view(spans@), a as int, b as int)[k],
{
    let mut r: Vec<usize> = Vec::new();
    let mut i: usize = 0;
    while i < spans.len()
        invariant
            i <= spans.len(),
            r@.len() == relevant(spans_view(spans@).take(i as int), a as int, b as int).len(),
            forall|k: int| 0 <= k < r@.len() ==> #[trigger] r@[k] < spans.len()
                && span_view(spans@[r@[k] as int])
                == relevant(spans_view(spans@).take(i as int), a as int, b as int)[k],
        decreases spans.len() - i,
    {
        proof {
            assert(spans_view(spans@).take(i + 1).drop_last() == spans_view(spans@).take(i as int));
            assert(spans_view(spans@).take(i + 1).last() == span_view(spans@[i as int]));
        }
        if spans[i].start >= a && spans[i].end <= b {
            r.push(i);
        }
        i = i + 1;
    }
    assert(spans_view(spans@).take(spans.len() as int) == spans_view(spans@));
    r
}

/// The source text between bytes `start` and `end` with the substitutions
/// inside that range replaced by `__SUBST__`.
pub fn text_replacing_substitutions(src: &[char], start: usize, end: usize, spans: &Vec<SubstSpan>) -> (r: String)
    ensures
        r@ == replaced_text(src@, start as int, end as int, spans_view(spans@)),
{
    let rel = relevant_indices(spans, start, end);
    let ghost rs = relevant(spans_view(spans@), start as int, end as int);
    let mut out = String::new();
    let mut pos = start;
    let mut k: usize = 0;
    assert(rs.skip(0) == rs);
    while k < rel.len()
        invariant
            k <= rel.len(),
            rel@.len() == rs.len(),
            forall|j: int| 0 <= j < rel@.len() ==> #[trigger] rel@[j] < spans.len()
                && span_view(spans@[rel@[j] as int]) == rs[j],
            out@ + splice(src@, pos as int, end as int, rs.skip(k as int)) == splice(src@, start as int, end as int, rs),
        decreases rel.len() - k,
    {
        let sp = &spans[rel[k]];
        assert(span_view(*sp) == rs[k as int]);
        assert(rs.skip(k as int)[0] == rs[k as int]);
        assert(rs.skip(k as int).drop_first() == rs.skip(k + 1));
        let piece = text_between(src, pos, sp.start);
        let ghost old_out = out@;
        out.append(piece.as_str());
        out.append("__SUBST__");
        assert(out@ == old_out + piece@ + "__SUBST__"@);
        pos = sp.end;
        k = k + 1;
    }
    let last = text_between(src, pos, end);
    out.append(last.as_str());
    out
}

} // verus!
