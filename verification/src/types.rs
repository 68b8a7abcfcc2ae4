//! Parse result types: operators, redirections, segments and pipelines.

use vstd::prelude::*;

verus! {

/// A shell operator joining two consecutive segments.
#[derive(Debug, Clone, Copy, PartialEq, Eq, Structural, Hash)]
pub enum Operator {
    /// `&&`
    And,
    /// `||`
    Or,
    /// `;` (and newline)
    Semi,
    /// `|`
    Pipe,
    /// `|&`
    PipeErr,
}

/// The shell text of an operator.
pub open spec fn operator_text(op: Operator) -> Seq<char> {
    match op {
        Operator::And => "&&"@,
        Operator::Or => "||"@,
        Operator::Semi => ";"@,
        Operator::Pipe => "|"@,
        Operator::PipeErr => "|&"@,
    }
}

impl Operator {
    /// The shell text of the operator (`&&`, `||`, `;`, `|`, `|&`).
    pub fn as_str(&self) -> (s: &'static str)
        ensures
            s@ == operator_text(*self),
    {
        match self {
            Operator::And => "&&",
            Operator::Or => "||",
            Operator::Semi => ";",
            Operator::Pipe => "|",
            Operator::PipeErr => "|&",
        }
    }
}

/// An output redirection that may change files.
#[derive(Debug, Clone)]
pub struct Redirection {
    /// What the redirection is, e.g. `output redirection (>)`.
    pub description: String,
}

impl Redirection {
    /// A copy of this redirection.
    pub fn duplicate(&self) -> (r: Redirection)
        ensures
            r.description@ == self.description@,
    {
        Redirection { description: self.description.clone() }
    }
}

/// The description of an optional redirection.
pub open spec fn redir_view(r: Option<Redirection>) -> Option<Seq<char>> {
    match r {
        Some(x) => Some(x.description@),
        None => None,
    }
}

/// A copy of an optional redirection.
pub fn copy_redirection(r: &Option<Redirection>) -> (c: Option<Redirection>)
    ensures
        redir_view(c) == redir_view(*r),
{
    match r {
        Some(x) => Some(x.duplicate()),
        None => None,
    }
}

/// One evaluable command of a (possibly compound) command line.
#[derive(Debug, Clone)]
pub struct ShellSegment {
    /// The command text, with substitutions replaced by `__SUBST__`.
    pub command: String,
    /// Output redirection inherited from a wrapping construct, if any.
    pub redirection: Option<Redirection>,
}

/// Segments joined by operators: `operators[i]` stands between
/// `segments[i]` and `segments[i + 1]`.
#[derive(Debug, Clone)]
pub struct ParsedPipeline {
    /// The segments, in source order.
    pub segments: Vec<ShellSegment>,
    /// The operators between consecutive segments.
    pub operators: Vec<Operator>,
}

/// Plain view of a segment: command text and redirection description.
pub open spec fn segment_view(s: ShellSegment) -> (Seq<char>, Option<Seq<char>>) {
    (s.command@, redir_view(s.redirection))
}

} // verus!
