//! Permission gate for shell commands: decides whether a command line may run
//! silently (ALLOW), needs confirmation (ASK) or is refused (DENY).

pub mod decision;
pub mod text;
pub mod words;
pub mod types;
pub mod syntax;
pub mod tree;
pub mod redirect;
pub mod subst;
pub mod walk;
pub mod walker;
pub mod shell;
pub mod names;
pub mod context;
pub mod rules;
pub mod config;
pub mod defaults;
pub mod git;
pub mod cargo;
pub mod kubectl;
pub mod gh;
pub mod segments;
pub mod eval;
pub mod laws;
pub mod dump;

pub use decision::{Decision, RuleMatch};
pub use eval::CommandRegistry;
