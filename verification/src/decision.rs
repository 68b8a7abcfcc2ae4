//! Decisions and rule matches.

use vstd::prelude::*;

verus! {

/// The outcome of evaluating a command. Ordered from least to most strict:
/// `Allow < Ask < Deny`.
#[derive(Debug, Clone, Copy, PartialEq, Eq, Structural, PartialOrd, Ord, Hash)]
pub enum Decision {
    /// Run without prompting.
    Allow,
    /// Ask the user for confirmation.
    Ask,
    /// Block the command.
    Deny,
}

/// Strictness rank of a decision (`Allow` = 0, `Ask` = 1, `Deny` = 2).
pub open spec fn rank(d: Decision) -> nat {
    match d {
        Decision::Allow => 0,
        Decision::Ask => 1,
        Decision::Deny => 2,
    }
}

/// The stricter of two decisions.
pub open spec fn stricter(a: Decision, b: Decision) -> Decision {
    if rank(b) > rank(a) { b } else { a }
}

impl Decision {
    /// Strictness rank (`Allow` = 0, `Ask` = 1, `Deny` = 2).
    pub fn strictness(&self) -> (r: u8)
        ensures r == rank(*self),
    {
        match self {
            Decision::Allow => 0,
            Decision::Ask => 1,
            Decision::Deny => 2,
        }
    }

    /// The stricter of `self` and `other` (ties keep `self`).
    pub fn max_with(self, other: Decision) -> (r: Decision)
        ensures r == stricter(self, other),
    {
        if other.strictness() > self.strictness() { other } else { self }
    }

    /// Upper-case label used in reasons: `ALLOW`, `ASK`, `DENY`.
    pub fn label(&self) -> (s: &'static str)
        ensures s@ == decision_label(*self),
    {
        match self {
            Decision::Allow => "ALLOW",
            Decision::Ask => "ASK",
            Decision::Deny => "DENY",
        }
    }
}

/// The label of a decision as text.
pub open spec fn decision_label(d: Decision) -> Seq<char> {
    match d {
        Decision::Allow => "ALLOW"@,
        Decision::Ask => "ASK"@,
        Decision::Deny => "DENY"@,
    }
}

/// A decision together with a human-readable explanation.
#[derive(Debug, Clone)]
pub struct RuleMatch {
    /// The decision reached.
    pub decision: Decision,
    /// Why the decision was reached.
    pub reason: String,
}

} // verus!
