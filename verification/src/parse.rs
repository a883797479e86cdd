//! Trusted boundary to the tree-sitter parsers.
//!
//! Each supported grammar gets one parse function.  For a fixed grammar a
//! parse is a pure function of the input text, so the tree each function
//! returns is pinned to an uninterpreted name of the input; everything the
//! library proves about simplification is relative to those names.

use vstd::prelude::*;
use crate::syntax::SynNode;

verus! {

#[verifier::external_type_specification]
#[verifier::external_body]
pub struct ExTsNode<'a>(tree_sitter::Node<'a>);

/// The tree that the Python grammar assigns to a text, if it parses cleanly.
pub uninterp spec fn py_tree_of(code: Seq<char>) -> Option<SynNode>;

/// The tree that the JavaScript grammar assigns to a text.
pub uninterp spec fn js_tree_of(code: Seq<char>) -> Option<SynNode>;

/// The tree that the TypeScript grammar assigns to a text.
pub uninterp spec fn ts_tree_of(code: Seq<char>) -> Option<SynNode>;

/// The tree that the Rust grammar assigns to a text.
pub uninterp spec fn rs_tree_of(code: Seq<char>) -> Option<SynNode>;

/// The tree that the Java grammar assigns to a text.
pub uninterp spec fn java_tree_of(code: Seq<char>) -> Option<SynNode>;

/// The tree that the Kotlin grammar assigns to a text.
pub uninterp spec fn kt_tree_of(code: Seq<char>) -> Option<SynNode>;

/// Relies on `tree_sitter::Node`'s accessors (`kind`, `is_named`,
/// `field_name_for_child`, byte range, `child`): copies one parse-tree node,
/// and recursively its children, into the library's own tree type.  Shared by
/// the six parse functions below; nothing else calls it.
#[verifier::external_body]
fn ts_node_to_syn(node: tree_sitter::Node<'_>, src: &[u8], field: Option<&str>) -> SynNode {
    SynNode {
        kind: node.kind().chars().collect(),
        named: node.is_named(),
        field: field.map(|f| f.chars().collect()),
        text: String::from_utf8_lossy(&src[node.start_byte()..node.end_byte()]).chars().collect(),
        children: (0..node.child_count()).map(|i| {
            ts_node_to_syn(node.child(i).unwrap(), src, node.field_name_for_child(i as u32))
        }).collect(),
    }
}

/// Relies on `tree_sitter::Parser` with `tree_sitter_python::language`: for
/// a fixed grammar the parse tree is a pure function of the input text.  A
/// failed parse, or a tree containing a syntax error, is reported as `None`.
#[verifier::external_body]
pub(crate) fn parse_python(code: &str) -> (r: Option<SynNode>)
    ensures
        r == py_tree_of(code@),
{
    let mut parser = tree_sitter::Parser::new();
    if parser.set_language(&tree_sitter_python::language()).is_err() {
        return None;
    }
    match parser.parse(code, None) {
        Some(t) if !t.root_node().has_error() => {
            Some(ts_node_to_syn(t.root_node(), code.as_bytes(), None))
        },
        _ => None,
    }
}

/// Relies on `tree_sitter::Parser` with `tree_sitter_javascript::language`;
/// same guarantees as the Python parse function.
#[verifier::external_body]
pub(crate) fn parse_javascript(code: &str) -> (r: Option<SynNode>)
    ensures
        r == js_tree_of(code@),
{
    let mut parser = tree_sitter::Parser::new();
    if parser.set_language(&tree_sitter_javascript::language()).is_err() {
        return None;
    }
    match parser.parse(code, None) {
        Some(t) if !t.root_node().has_error() => {
            Some(ts_node_to_syn(t.root_node(), code.as_bytes(), None))
        },
        _ => None,
    }
}

/// Relies on `tree_sitter::Parser` with
/// `tree_sitter_typescript::language_typescript`; same guarantees as the
/// Python parse function.
#[verifier::external_body]
pub(crate) fn parse_typescript(code: &str) -> (r: Option<SynNode>)
    ensures
        r == ts_tree_of(code@),
{
    let mut parser = tree_sitter::Parser::new();
    if parser.set_language(&tree_sitter_typescript::language_typescript()).is_err() {
        return None;
    }
    match parser.parse(code, None) {
        Some(t) if !t.root_node().has_error() => {
            Some(ts_node_to_syn(t.root_node(), code.as_bytes(), None))
        },
        _ => None,
    }
}

/// Relies on `tree_sitter::Parser` with `tree_sitter_rust::language`; same
/// guarantees as the Python parse function.
#[verifier::external_body]
pub(crate) fn parse_rust(code: &str) -> (r: Option<SynNode>)
    ensures
        r == rs_tree_of(code@),
{
    let mut parser = tree_sitter::Parser::new();
    if parser.set_language(&tree_sitter_rust::language()).is_err() {
        return None;
    }
    match parser.parse(code, None) {
        Some(t) if !t.root_node().has_error() => {
            Some(ts_node_to_syn(t.root_node(), code.as_bytes(), None))
        },
        _ => None,
    }
}

/// Relies on `tree_sitter::Parser` with `tree_sitter_java::language`; same
/// guarantees as the Python parse function.
#[verifier::external_body]
pub(crate) fn parse_java(code: &str) -> (r: Option<SynNode>)
    ensures
        r == java_tree_of(code@),
{
    let mut parser = tree_sitter::Parser::new();
    if parser.set_language(&tree_sitter_java::language()).is_err() {
        return None;
    }
    match parser.parse(code, None) {
        Some(t) if !t.root_node().has_error() => {
            Some(ts_node_to_syn(t.root_node(), code.as_bytes(), None))
        },
        _ => None,
    }
}

/// Relies on `tree_sitter::Parser` with `tree_sitter_kotlin::language`; same
/// guarantees as the Python parse function.
#[verifier::external_body]
pub(crate) fn parse_kotlin(code: &str) -> (r: Option<SynNode>)
    ensures
        r == kt_tree_of(code@),
{
    let mut parser = tree_sitter::Parser::new();
    if parser.set_language(&tree_sitter_kotlin::language()).is_err() {
        return None;
    }
    match parser.parse(code, None) {
        Some(t) if !t.root_node().has_error() => {
            Some(ts_node_to_syn(t.root_node(), code.as_bytes(), None))
        },
        _ => None,
    }
}

} // verus!
