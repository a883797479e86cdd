//! Java segmenter.
//!
//! Package and import declarations and fields are kept verbatim, methods are
//! reduced to a `type name(params);` header, and constructors are kept whole,
//! behind a marker comment.  Unrecognized named nodes are kept verbatim.

use vstd::prelude::*;
use crate::syntax::SynNode;
use crate::syntax::kind_is;
use crate::syntax::field_text;
use crate::syntax::field_text_of;
use crate::syntax::field_child;
use crate::syntax::idx_of_field;
use crate::syntax::node_kind_is;
use crate::text::all_ws;
use crate::text::trim_end_spec;
use crate::text::indent4_spec;
use crate::text::indent4;
use crate::text::is_blank;
use crate::text::trim_end;
use crate::text::push_chars;
use crate::text::push_str;
use crate::text::clone_chars;
use crate::text::chars_to_string;
use crate::parse::parse_java;
use crate::parse::java_tree_of;

verus! {

pub open spec fn java_m_type(n: SynNode) -> Seq<char> {
    match field_text(n, "type"@) {
        Some(t) => t,
        None => "void"@,
    }
}

pub open spec fn java_m_name(n: SynNode) -> Seq<char> {
    match field_text(n, "name"@) {
        Some(t) => t,
        None => "unnamedMethod"@,
    }
}

pub open spec fn java_m_params(n: SynNode) -> Seq<char> {
    match field_text(n, "parameters"@) {
        Some(t) => t,
        None => "()"@,
    }
}

/// A method's simplified form: return type, name and parameter list,
/// closed by a semicolon; the body is discarded.
pub open spec fn java_method_spec(n: SynNode) -> Seq<char> {
    java_m_type(n) + " "@ + java_m_name(n) + java_m_params(n) + ";\n"@
}

/// A constructor's simplified form: the whole node text, kept verbatim
/// behind a marker comment.
pub open spec fn java_constructor_spec(n: SynNode) -> Seq<char> {
    "    // Constructor implementation\n "@ + n.text@ + " "@
}

pub open spec fn java_node_spec(n: SynNode) -> Seq<char>
    decreases n, 3int,
{
    if kind_is(n, "program"@) {
        java_program_spec(n)
    } else if kind_is(n, "class_declaration"@) {
        java_class_spec(n)
    } else if kind_is(n, "method_declaration"@) {
        java_method_spec(n)
    } else if kind_is(n, "constructor_declaration"@) {
        java_constructor_spec(n)
    } else {
        n.text@
    }
}

pub open spec fn java_program_items_spec(cs: Seq<SynNode>, i: int) -> Seq<char>
    decreases cs, cs.len() - i,
{
    if !(0 <= i < cs.len()) {
        Seq::empty()
    } else {
        let t = java_node_spec(cs[i]);
        (if all_ws(t) {
            Seq::empty()
        } else {
            t + "\n"@
        }) + java_program_items_spec(cs, i + 1)
    }
}

pub open spec fn java_program_spec(n: SynNode) -> Seq<char>
    decreases n, 2int,
{
    trim_end_spec(java_program_items_spec(n.children@, 0))
}

/// One class-body member's contribution: methods are stubbed and
/// re-indented, constructors kept whole, fields kept verbatim, any other
/// named member kept verbatim and re-indented; anonymous tokens are the
/// container's own braces and are skipped.
pub open spec fn java_member_piece(cs: Seq<SynNode>, i: int) -> Seq<char> {
    if !(0 <= i < cs.len()) {
        Seq::empty()
    } else if !cs[i].named {
        Seq::empty()
    } else if kind_is(cs[i], "method_declaration"@) {
        indent4_spec(java_method_spec(cs[i]))
    } else if kind_is(cs[i], "constructor_declaration"@) {
        java_constructor_spec(cs[i])
    } else if kind_is(cs[i], "field_declaration"@) {
        cs[i].text@ + "\n"@
    } else {
        indent4_spec(cs[i].text@)
    }
}

pub open spec fn java_members_spec(cs: Seq<SynNode>, i: int) -> Seq<char>
    decreases cs.len() - i,
{
    if !(0 <= i < cs.len()) {
        Seq::empty()
    } else {
        java_member_piece(cs, i) + java_members_spec(cs, i + 1)
    }
}

pub open spec fn java_class_head(n: SynNode) -> Seq<char> {
    let name = match field_text(n, "name"@) {
        Some(t) => t,
        None => "UnnamedClass"@,
    };
    "class "@ + name + " {\n"@
}

pub open spec fn java_class_spec(n: SynNode) -> Seq<char>
    decreases n, 2int,
{
    let j = idx_of_field(n.children@, "body"@);
    let mem = if 0 <= j < n.children@.len() {
        java_members_spec(n.children@[j].children@, 0)
    } else {
        Seq::empty()
    };
    java_class_head(n) + mem + "}\n"@
}

/// What simplification yields for a Java source text.
pub open spec fn java_simplify_spec(code: Seq<char>) -> Option<Seq<char>> {
    match java_tree_of(code) {
        Some(t) => Some(java_node_spec(t)),
        None => None,
    }
}

pub fn process_node(n: &SynNode) -> (r: Vec<char>)
    ensures
        r@ == java_node_spec(*n),
    decreases *n, 3int,
{
    if node_kind_is(n, "program") {
        process_program(n)
    } else if node_kind_is(n, "class_declaration") {
        process_class(n)
    } else if node_kind_is(n, "method_declaration") {
        process_method(n)
    } else if node_kind_is(n, "constructor_declaration") {
        process_constructor(n)
    } else {
        clone_chars(&n.text)
    }
}

pub fn process_program(n: &SynNode) -> (r: Vec<char>)
    ensures
        r@ == java_program_spec(*n),
    decreases *n, 2int,
{
    let mut acc: Vec<char> = Vec::new();
    let mut i: usize = 0;
    while i < n.children.len()
        invariant
            i <= n.children@.len(),
            java_program_items_spec(n.children@, 0) == acc@ + java_program_items_spec(
                n.children@,
                i as int,
            ),
        decreases n.children@.len() - i,
    {
        let ghost acc0 = acc@;
        let t = process_node(&n.children[i]);
        if !is_blank(&t) {
            push_chars(&mut acc, &t);
            push_str(&mut acc, "\n");
        }
        proof {
            assert(acc0 + ((t@ + "\n"@) + java_program_items_spec(n.children@, i + 1)) =~= ((acc0
                + t@) + "\n"@) + java_program_items_spec(n.children@, i + 1));
            assert(acc0 + (Seq::<char>::empty() + java_program_items_spec(n.children@, i + 1)) =~=
                acc0 + java_program_items_spec(n.children@, i + 1));
        }
        i += 1;
    }
    proof {
        assert(acc@ + Seq::<char>::empty() =~= acc@);
    }
    trim_end(&acc)
}

pub fn process_method(n: &SynNode) -> (r: Vec<char>)
    ensures
        r@ == java_method_spec(*n),
{
    let mut r: Vec<char> = Vec::new();
    match field_text_of(n, "type") {
        Some(v) => push_chars(&mut r, &v),
        None => push_str(&mut r, "void"),
    }
    push_str(&mut r, " ");
    match field_text_of(n, "name") {
        Some(v) => push_chars(&mut r, &v),
        None => push_str(&mut r, "unnamedMethod"),
    }
    match field_text_of(n, "parameters") {
        Some(v) => push_chars(&mut r, &v),
        None => push_str(&mut r, "()"),
    }
    push_str(&mut r, ";\n");
    r
}

pub fn process_constructor(n: &SynNode) -> (r: Vec<char>)
    ensures
        r@ == java_constructor_spec(*n),
{
    let mut r: Vec<char> = Vec::new();
    push_str(&mut r, "    // Constructor implementation\n ");
    push_chars(&mut r, &n.text);
    push_str(&mut r, " ");
    r
}

pub fn process_class(n: &SynNode) -> (r: Vec<char>)
    ensures
        r@ == java_class_spec(*n),
    decreases *n, 2int,
{
    let mut r: Vec<char> = Vec::new();
    push_str(&mut r, "class ");
    match field_text_of(n, "name") {
        Some(v) => push_chars(&mut r, &v),
        None => push_str(&mut r, "UnnamedClass"),
    }
    push_str(&mut r, " {\n");
    match field_child(n, "body") {
        Some(j) => {
            let body = &n.children[j];
            let mut i: usize = 0;
            while i < body.children.len()
                invariant
                    i <= body.children@.len(),
                    *body == n.children@[idx_of_field(n.children@, "body"@)],
                    0 <= idx_of_field(n.children@, "body"@) < n.children@.len(),
                    java_class_head(*n) + java_members_spec(body.children@, 0) == r@
                        + java_members_spec(body.children@, i as int),
                decreases body.children@.len() - i,
            {
                let ghost r0 = r@;
                let c = &body.children[i];
                if !c.named {
                    // anonymous punctuation: the class emits its own braces
                } else if node_kind_is(c, "method_declaration") {
                    let t = process_method(c);
                    let ind = indent4(&t);
                    push_chars(&mut r, &ind);
                } else if node_kind_is(c, "constructor_declaration") {
                    let t = process_constructor(c);
                    push_chars(&mut r, &t);
                } else if node_kind_is(c, "field_declaration") {
                    push_chars(&mut r, &c.text);
                    push_str(&mut r, "\n");
                } else {
                    let ind = indent4(&c.text);
                    push_chars(&mut r, &ind);
                }
                proof {
                    let piece = java_member_piece(body.children@, i as int);
                    assert(r0 + (piece + java_members_spec(body.children@, i + 1)) =~= (r0 + piece)
                        + java_members_spec(body.children@, i + 1));
                    assert(r0 + (Seq::<char>::empty() + java_members_spec(body.children@, i + 1))
                        =~= r0 + java_members_spec(body.children@, i + 1));
                    assert(r0 + ((body.children@[i as int].text@ + "\n"@) + java_members_spec(
                        body.children@,
                        i + 1,
                    )) =~= ((r0 + body.children@[i as int].text@) + "\n"@) + java_members_spec(
                        body.children@,
                        i + 1,
                    ));
                }
                i += 1;
            }
            proof {
                assert(r@ + Seq::<char>::empty() =~= r@);
            }
        },
        None => {},
    }
    push_str(&mut r, "}\n");
    r
}

/// Segmenter for Java sources: holds the parsed tree of one file.
pub struct JavaSegmenter {
    pub tree: SynNode,
}

impl JavaSegmenter {
    /// Parses the text; `None` reports a parse failure, never a panic.
    pub fn new(code: &str) -> (r: Option<JavaSegmenter>)
        ensures
            match r {
                Some(s) => java_tree_of(code@) == Some(s.tree),
                None => java_tree_of(code@) is None,
            },
    {
        match parse_java(code) {
            Some(t) => Some(JavaSegmenter { tree: t }),
            None => None,
        }
    }

    /// The simplified text: a pure function of the parsed tree.
    pub fn simplify_code(&self) -> (r: String)
        ensures
            r@ == java_node_spec(self.tree),
    {
        let v = process_node(&self.tree);
        chars_to_string(&v)
    }
}

/// Body elision: a method is reduced to its reconstructed header; nothing
/// of its body reaches the output.
pub proof fn lemma_java_body_elision(n: SynNode)
    ensures
        java_method_spec(n) == java_m_type(n) + " "@ + java_m_name(n) + java_m_params(n) + ";\n"@,
{
}

/// Verbatim-override preservation: a constructor's whole node text stands
/// unmodified in its simplified form, between a fixed marker prefix and a
/// fixed suffix.
pub proof fn lemma_java_constructor_preserved(n: SynNode)
    ensures
        java_constructor_spec(n).subrange(
            "    // Constructor implementation\n "@.len() as int,
            java_constructor_spec(n).len() - 1,
        ) == n.text@,
{
    reveal_strlit("    // Constructor implementation\n ");
    reveal_strlit(" ");
    assert(java_constructor_spec(n).subrange(
        "    // Constructor implementation\n "@.len() as int,
        java_constructor_spec(n).len() - 1,
    ) =~= n.text@);
}

} // verus!
