//! The bash syntax tree as plain values.
//!
//! Parsing is done by tree-sitter with the bash grammar. The tree comes back
//! as its nodes in preorder, each with its kind, whether it is named, its byte
//! range in the source and its depth below the root. Everything the command
//! analysis reads of the tree is in that sequence.

use vstd::prelude::*;
use crate::text::str_eq;

verus! {

#[verifier::external_type_specification]
#[verifier::external_body]
pub struct ExTree(tree_sitter::Tree);

/// One node of a tree-sitter syntax tree as the parser reports it.
#[derive(Debug, Clone)]
pub struct SyntaxNode {
    /// The grammar symbol, e.g. `command` or `&&`.
    pub kind: String,
    /// Whether the node is a named node (not an anonymous token).
    pub named: bool,
    /// Byte offset where the node starts.
    pub start_byte: usize,
    /// Byte offset where the node ends.
    pub end_byte: usize,
    /// Depth below the root (the root has depth 0).
    pub depth: usize,
}

/// The nodes that a parsed tree holds, in the order of tree-sitter's
/// descendant indices (the root first).
pub uninterp spec fn tree_nodes(tree: tree_sitter::Tree) -> Seq<SyntaxNode>;

/// The nodes of the tree that tree-sitter's bash grammar gives for `source`.
pub uninterp spec fn bash_nodes(source: Seq<char>) -> Seq<SyntaxNode>;

/// Parses `source` with the bash grammar (`tree_sitter::Parser::parse`, on
/// a parser given `tree_sitter_bash::LANGUAGE` by `set_language`). The
/// contract claims that the tree's nodes are those named by `bash_nodes` for
/// the source, that is, the same source always gives the same nodes; nothing
/// is claimed of what they are. Setting the language fails only for a
/// grammar built for an incompatible tree-sitter version, and `parse`
/// returns `None` only when no language is set, so neither `expect` fires.
#[verifier::external_body]
fn parse_bash(source: &str) -> (tree: tree_sitter::Tree)
    ensures
        tree_nodes(tree) == bash_nodes(source@),
{
    let mut parser = tree_sitter::Parser::new();
    parser.set_language(&tree_sitter_bash::LANGUAGE.into()).expect("bash grammar loads");
    parser.parse(source, None).expect("parser has a language")
}

/// The number of nodes in `tree` (`Node::descendant_count` of the root,
/// which counts the root itself).
#[verifier::external_body]
fn node_count(tree: &tree_sitter::Tree) -> (n: usize)
    ensures
        n == tree_nodes(*tree).len(),
{
    tree.root_node().descendant_count()
}

/// The node with descendant index `index` (`TreeCursor::goto_descendant`),
/// with its kind, namedness, byte range and the cursor's depth.
#[verifier::external_body]
fn node_at(tree: &tree_sitter::Tree, index: usize) -> (node: SyntaxNode)
    requires
        index < tree_nodes(*tree).len(),
    ensures
        node == tree_nodes(*tree)[index as int],
{
    let mut cursor = tree.walk();
    cursor.goto_descendant(index);
    let n = cursor.node();
    SyntaxNode {
        kind: n.kind().to_string(),
        named: n.is_named(),
        start_byte: n.start_byte(),
        end_byte: n.end_byte(),
        depth: cursor.depth() as usize,
    }
}

/// The node kinds that the command analysis distinguishes.
#[derive(Debug, Clone, Copy, PartialEq, Eq, Structural)]
pub enum NodeKind {
    Program,
    List,
    Pipeline,
    Command,
    DeclarationCommand,
    RedirectedStatement,
    ForStatement,
    WhileStatement,
    UntilStatement,
    CStyleForStatement,
    IfStatement,
    CaseStatement,
    Subshell,
    CompoundStatement,
    DoGroup,
    ElseClause,
    ElifClause,
    CaseItem,
    NegatedCommand,
    FunctionDefinition,
    VariableAssignment,
    Comment,
    HeredocBody,
    CommandSubstitution,
    ProcessSubstitution,
    FileRedirect,
    FileDescriptor,
    HeredocRedirect,
    HerestringRedirect,
    Word,
    /// `&&`
    AndAnd,
    /// `||`
    OrOr,
    /// `|`
    Bar,
    /// `|&`
    BarAmp,
    /// `)`
    RParen,
    /// `>`
    Gt,
    /// `>>`
    GtGt,
    /// `>|`
    GtBar,
    /// `&>`
    AmpGt,
    /// `&>>`
    AmpGtGt,
    /// `>&`
    GtAmp,
    /// `<`
    Lt,
    /// `<<<`
    LtLtLt,
    /// `<<`
    LtLt,
    /// `<&`
    LtAmp,
    /// Any other symbol.
    Other,
}

/// The kind named by a grammar symbol.
pub open spec fn kind_of(k: Seq<char>) -> NodeKind {
    if k == "program"@ { NodeKind::Program }
    else if k == "list"@ { NodeKind::List }
    else if k == "pipeline"@ { NodeKind::Pipeline }
    else if k == "command"@ { NodeKind::Command }
    else if k == "declaration_command"@ { NodeKind::DeclarationCommand }
    else if k == "redirected_statement"@ { NodeKind::RedirectedStatement }
    else if k == "for_statement"@ { NodeKind::ForStatement }
    else if k == "while_statement"@ { NodeKind::WhileStatement }
    else if k == "until_statement"@ { NodeKind::UntilStatement }
    else if k == "c_style_for_statement"@ { NodeKind::CStyleForStatement }
    else if k == "if_statement"@ { NodeKind::IfStatement }
    else if k == "case_statement"@ { NodeKind::CaseStatement }
    else if k == "subshell"@ { NodeKind::Subshell }
    else if k == "compound_statement"@ { NodeKind::CompoundStatement }
    else if k == "do_group"@ { NodeKind::DoGroup }
    else if k == "else_clause"@ { NodeKind::ElseClause }
    else if k == "elif_clause"@ { NodeKind::ElifClause }
    else if k == "case_item"@ { NodeKind::CaseItem }
    else if k == "negated_command"@ { NodeKind::NegatedCommand }
    else if k == "function_definition"@ { NodeKind::FunctionDefinition }
    else if k == "variable_assignment"@ { NodeKind::VariableAssignment }
    else if k == "comment"@ { NodeKind::Comment }
    else if k == "heredoc_body"@ { NodeKind::HeredocBody }
    else if k == "command_substitution"@ { NodeKind::CommandSubstitution }
    else if k == "process_substitution"@ { NodeKind::ProcessSubstitution }
    else if k == "file_redirect"@ { NodeKind::FileRedirect }
    else if k == "file_descriptor"@ { NodeKind::FileDescriptor }
    else if k == "heredoc_redirect"@ { NodeKind::HeredocRedirect }
    else if k == "herestring_redirect"@ { NodeKind::HerestringRedirect }
    else if k == "word"@ { NodeKind::Word }
    else if k == "&&"@ { NodeKind::AndAnd }
    else if k == "||"@ { NodeKind::OrOr }
    else if k == "|"@ { NodeKind::Bar }
    else if k == "|&"@ { NodeKind::BarAmp }
    else if k == ")"@ { NodeKind::RParen }
    else if k == ">"@ { NodeKind::Gt }
    else if k == ">>"@ { NodeKind::GtGt }
    else if k == ">|"@ { NodeKind::GtBar }
    else if k == "&>"@ { NodeKind::AmpGt }
    else if k == "&>>"@ { NodeKind::AmpGtGt }
    else if k == ">&"@ { NodeKind::GtAmp }
    else if k == "<"@ { NodeKind::Lt }
    else if k == "<<<"@ { NodeKind::LtLtLt }
    else if k == "<<"@ { NodeKind::LtLt }
    else if k == "<&"@ { NodeKind::LtAmp }
    else { NodeKind::Other }
}

/// The kind named by a grammar symbol.
pub fn classify(k: &str) -> (r: NodeKind)
    ensures
        r == kind_of(k@),
{
    if str_eq(k, "program") { NodeKind::Program }
    else if str_eq(k, "list") { NodeKind::List }
    else if str_eq(k, "pipeline") { NodeKind::Pipeline }
    else if str_eq(k, "command") { NodeKind::Command }
    else if str_eq(k, "declaration_command") { NodeKind::DeclarationCommand }
    else if str_eq(k, "redirected_statement") { NodeKind::RedirectedStatement }
    else if str_eq(k, "for_statement") { NodeKind::ForStatement }
    else if str_eq(k, "while_statement") { NodeKind::WhileStatement }
    else if str_eq(k, "until_statement") { NodeKind::UntilStatement }
    else if str_eq(k, "c_style_for_statement") { NodeKind::CStyleForStatement }
    else if str_eq(k, "if_statement") { NodeKind::IfStatement }
    else if str_eq(k, "case_statement") { NodeKind::CaseStatement }
    else if str_eq(k, "subshell") { NodeKind::Subshell }
    else if str_eq(k, "compound_statement") { NodeKind::CompoundStatement }
    else if str_eq(k, "do_group") { NodeKind::DoGroup }
    else if str_eq(k, "else_clause") { NodeKind::ElseClause }
    else if str_eq(k, "elif_clause") { NodeKind::ElifClause }
    else if str_eq(k, "case_item") { NodeKind::CaseItem }
    else if str_eq(k, "negated_command") { NodeKind::NegatedCommand }
    else if str_eq(k, "function_definition") { NodeKind::FunctionDefinition }
    else if str_eq(k, "variable_assignment") { NodeKind::VariableAssignment }
    else if str_eq(k, "comment") { NodeKind::Comment }
    else if str_eq(k, "heredoc_body") { NodeKind::HeredocBody }
    else if str_eq(k, "command_substitution") { NodeKind::CommandSubstitution }
    else if str_eq(k, "process_substitution") { NodeKind::ProcessSubstitution }
    else if str_eq(k, "file_redirect") { NodeKind::FileRedirect }
    else if str_eq(k, "file_descriptor") { NodeKind::FileDescriptor }
    else if str_eq(k, "heredoc_redirect") { NodeKind::HeredocRedirect }
    else if str_eq(k, "herestring_redirect") { NodeKind::HerestringRedirect }
    else if str_eq(k, "word") { NodeKind::Word }
    else if str_eq(k, "&&") { NodeKind::AndAnd }
    else if str_eq(k, "||") { NodeKind::OrOr }
    else if str_eq(k, "|") { NodeKind::Bar }
    else if str_eq(k, "|&") { NodeKind::BarAmp }
    else if str_eq(k, ")") { NodeKind::RParen }
    else if str_eq(k, ">") { NodeKind::Gt }
    else if str_eq(k, ">>") { NodeKind::GtGt }
    else if str_eq(k, ">|") { NodeKind::GtBar }
    else if str_eq(k, "&>") { NodeKind::AmpGt }
    else if str_eq(k, "&>>") { NodeKind::AmpGtGt }
    else if str_eq(k, ">&") { NodeKind::GtAmp }
    else if str_eq(k, "<") { NodeKind::Lt }
    else if str_eq(k, "<<<") { NodeKind::LtLtLt }
    else if str_eq(k, "<<") { NodeKind::LtLt }
    else if str_eq(k, "<&") { NodeKind::LtAmp }
    else { NodeKind::Other }
}

/// A syntax node with its kind classified; offsets are in bytes.
#[derive(Debug, Clone, Copy)]
pub struct Node {
    /// The classified kind.
    pub kind: NodeKind,
    /// Whether the node is named.
    pub named: bool,
    /// Start byte offset.
    pub start: usize,
    /// End byte offset.
    pub end: usize,
    /// Depth below the root.
    pub depth: usize,
}

/// The classified form of a syntax node.
pub open spec fn node_of(n: SyntaxNode) -> Node {
    Node { kind: kind_of(n.kind@), named: n.named, start: n.start_byte, end: n.end_byte, depth: n.depth }
}

/// The classified nodes of the bash tree of `source`, in preorder.
pub open spec fn bash_tree(source: Seq<char>) -> Seq<Node> {
    bash_nodes(source).map_values(|n: SyntaxNode| node_of(n))
}

/// Classifies one syntax node.
pub fn classify_node(n: &SyntaxNode) -> (r: Node)
    ensures
        r == node_of(*n),
{
    Node { kind: classify(n.kind.as_str()), named: n.named, start: n.start_byte, end: n.end_byte, depth: n.depth }
}

/// Parses `source` as bash and returns its nodes as tree-sitter reports
/// them, in preorder.
pub fn bash_syntax_nodes(source: &str) -> (raw: Vec<SyntaxNode>)
    ensures
        raw@ == bash_nodes(source@),
{
    let tree = parse_bash(source);
    let n = node_count(&tree);
    let mut raw: Vec<SyntaxNode> = Vec::new();
    let mut i: usize = 0;
    while i < n
        invariant
            i <= n,
            n == tree_nodes(tree).len(),
            tree_nodes(tree) == bash_nodes(source@),
            raw@ == bash_nodes(source@).take(i as int),
        decreases n - i,
    {
        let sn = node_at(&tree, i);
        raw.push(sn);
        assert(bash_nodes(source@).take(i + 1) == bash_nodes(source@).take(i as int).push(sn));
        i = i + 1;
    }
    assert(bash_nodes(source@).take(n as int) == bash_nodes(source@));
    raw
}

/// The classified forms of `raw`.
pub fn classify_nodes(raw: &Vec<SyntaxNode>) -> (nodes: Vec<Node>)
    ensures
        nodes@ == raw@.map_values(|n: SyntaxNode| node_of(n)),
{
    let mut nodes: Vec<Node> = Vec::new();
    let mut i: usize = 0;
    while i < raw.len()
        invariant
            i <= raw.len(),
            nodes@ == raw@.take(i as int).map_values(|n: SyntaxNode| node_of(n)),
        decreases raw.len() - i,
    {
        nodes.push(classify_node(&raw[i]));
        assert(raw@.take(i + 1).map_values(|n: SyntaxNode| node_of(n))
            =~= raw@.take(i as int).map_values(|n: SyntaxNode| node_of(n)).push(node_of(raw@[i as int])));
        i = i + 1;
    }
    assert(raw@.take(raw.len() as int) == raw@);
    nodes
}

/// Parses `source` as bash and returns its classified nodes in preorder.
pub fn bash_syntax(source: &str) -> (nodes: Vec<Node>)
    ensures
        nodes@ == bash_tree(source@),
{
    let raw = bash_syntax_nodes(source);
    classify_nodes(&raw)
}

// ── Byte offsets and characters ──

/// Number of UTF-8 bytes of `c`.
pub open spec fn utf8_width(c: char) -> nat {
    if (c as u32) < 0x80 { 1 } else if (c as u32) < 0x800 { 2 } else if (c as u32) < 0x10000 { 3 } else { 4 }
}

/// The number of characters of `s` that lie entirely before byte offset `b`:
/// the character index of a byte offset (an offset inside a character is
/// taken to that character's start).
pub open spec fn char_index(s: Seq<char>, b: int) -> nat
    decreases s.len(),
{
    if s.len() == 0 || b < utf8_width(s[0]) { 0 } else { 1 + char_index(s.drop_first(), b - utf8_width(s[0])) }
}

/// The text between byte offsets `a` and `b` of `s`.
pub open spec fn byte_text(s: Seq<char>, a: int, b: int) -> Seq<char> {
    let i = char_index(s, a);
    let j = char_index(s, b);
    if i <= j { s.subrange(i as int, j as int) } else { Seq::empty() }
}

/// UTF-8 width of a character.
pub fn char_width(c: char) -> (w: usize)
    ensures
        w == utf8_width(c),
{
    let u = c as u32;
    if u < 0x80 { 1 } else if u < 0x800 { 2 } else if u < 0x10000 { 3 } else { 4 }
}

proof fn lemma_char_index_le(s: Seq<char>, b: int)
    ensures
        char_index(s, b) <= s.len(),
    decreases s.len(),
{
    if s.len() > 0 && b >= utf8_width(s[0]) {
        lemma_char_index_le(s.drop_first(), b - utf8_width(s[0]));
    }
}

/// The character index of byte offset `b` in `s`.
pub fn char_index_of(s: &[char], b: usize) -> (r: usize)
    ensures
        r == char_index(s@, b as int),
        r <= s.len(),
{
    let mut i: usize = 0;
    let mut used: usize = 0;
    assert(s@.skip(0) == s@);
    while i < s.len() && char_width(s[i]) <= b - used
        invariant
            i <= s.len(),
            used <= b,
            char_index(s@, b as int) == i + char_index(s@.skip(i as int), b - used),
        decreases s.len() - i,
    {
        assert(s@.skip(i as int).drop_first() == s@.skip(i + 1));
        used = used + char_width(s[i]);
        i = i + 1;
    }
    proof {
        lemma_char_index_le(s@, b as int);
    }
    i
}

/// The text between byte offsets `a` and `b` of `s`.
pub fn text_between(s: &[char], a: usize, b: usize) -> (r: String)
    ensures
        r@ == byte_text(s@, a as int, b as int),
{
    let i = char_index_of(s, a);
    let j = char_index_of(s, b);
    if i <= j {
        crate::text::string_of(crate::text::slice_range(s, i, j))
    } else {
        String::new()
    }
}

} // verus!
