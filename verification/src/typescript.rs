//! TypeScript segmenter.
//!
//! Classes, abstract classes and interfaces keep headers and member
//! outlines, functions and methods are reduced to stubs, and a class
//! constructor keeps its whole body text.  Comments are dropped; any other
//! unrecognized node is kept verbatim.

use vstd::prelude::*;
use crate::syntax::SynNode;
use crate::syntax::kind_is;
use crate::syntax::field_text;
use crate::syntax::field_text_of;
use crate::syntax::field_child;
use crate::syntax::idx_of_field;
use crate::syntax::node_kind_is;
use crate::text::all_ws;
use crate::text::trim_end_spec;
use crate::text::indent4_spec;
use crate::text::indent4;
use crate::text::is_blank;
use crate::text::trim_end;
use crate::text::push_chars;
use crate::text::push_str;
use crate::text::clone_chars;
use crate::text::chars_eq_str;
use crate::text::chars_to_string;
use crate::parse::parse_typescript;
use crate::parse::ts_tree_of;

verus! {

pub open spec fn ts_m_name(n: SynNode) -> Seq<char> {
    match field_text(n, "name"@) {
        Some(t) => t,
        None => "unnamed"@,
    }
}

pub open spec fn ts_m_params(n: SynNode) -> Seq<char> {
    match field_text(n, "parameters"@) {
        Some(t) => t,
        None => "()"@,
    }
}

/// A function declaration's simplified form: a `function` header with an
/// empty body marker.
pub open spec fn ts_function_spec(n: SynNode) -> Seq<char> {
    "function "@ + ts_m_name(n) + ts_m_params(n) + "{ }\n"@
}

/// A method's simplified form: name and parameters with an empty body
/// marker; a constructor additionally keeps its whole body text.
pub open spec fn ts_method_spec(n: SynNode) -> Seq<char> {
    if ts_m_name(n) == "constructor"@ {
        match field_text(n, "body"@) {
            Some(b) => ts_m_name(n) + ts_m_params(n) + b + " { }"@,
            None => ts_m_name(n) + ts_m_params(n) + " { }"@,
        }
    } else {
        ts_m_name(n) + ts_m_params(n) + " { }"@
    }
}

/// One declarator's contribution to a simplified variable declaration.
pub open spec fn ts_declarator_piece(cs: Seq<SynNode>, i: int) -> Seq<char> {
    if !(0 <= i < cs.len()) {
        Seq::empty()
    } else {
        match field_text(cs[i], "name"@) {
            Some(nm) => "const "@ + nm + (match field_text(cs[i], "init"@) {
                Some(v) => " = "@ + v + ";\n"@,
                None => ";\n"@,
            }),
            None => Seq::empty(),
        }
    }
}

pub open spec fn ts_declarators_spec(cs: Seq<SynNode>, i: int) -> Seq<char>
    decreases cs.len() - i,
{
    if !(0 <= i < cs.len()) {
        Seq::empty()
    } else {
        ts_declarator_piece(cs, i) + ts_declarators_spec(cs, i + 1)
    }
}

pub open spec fn ts_var_spec(n: SynNode) -> Seq<char> {
    let j = idx_of_field(n.children@, "declarators"@);
    if 0 <= j < n.children@.len() {
        ts_declarators_spec(n.children@[j].children@, 0)
    } else {
        Seq::empty()
    }
}

/// One class-body member's contribution.
pub open spec fn ts_class_member_piece(cs: Seq<SynNode>, i: int) -> Seq<char> {
    if !(0 <= i < cs.len()) {
        Seq::empty()
    } else if !cs[i].named {
        Seq::empty()
    } else if kind_is(cs[i], "method_definition"@) {
        indent4_spec(ts_method_spec(cs[i]))
    } else if kind_is(cs[i], "public_field_definition"@) {
        "    "@ + cs[i].text@ + "\n"@
    } else {
        indent4_spec(cs[i].text@)
    }
}

pub open spec fn ts_class_members_spec(cs: Seq<SynNode>, i: int) -> Seq<char>
    decreases cs.len() - i,
{
    if !(0 <= i < cs.len()) {
        Seq::empty()
    } else {
        ts_class_member_piece(cs, i) + ts_class_members_spec(cs, i + 1)
    }
}

pub open spec fn ts_class_head(n: SynNode) -> Seq<char> {
    let name = match field_text(n, "name"@) {
        Some(t) => t,
        None => "UnnamedClass"@,
    };
    "class "@ + name + " {\n"@
}

pub open spec fn ts_class_spec(n: SynNode) -> Seq<char> {
    let j = idx_of_field(n.children@, "body"@);
    let mem = if 0 <= j < n.children@.len() {
        ts_class_members_spec(n.children@[j].children@, 0)
    } else {
        Seq::empty()
    };
    ts_class_head(n) + mem + "}\n"@
}

/// One abstract-class member's contribution.
pub open spec fn ts_abstract_member_piece(cs: Seq<SynNode>, i: int) -> Seq<char> {
    if !(0 <= i < cs.len()) {
        Seq::empty()
    } else if !cs[i].named {
        Seq::empty()
    } else if kind_is(cs[i], "method_definition"@) {
        indent4_spec(ts_method_spec(cs[i]))
    } else if kind_is(cs[i], "public_field_definition"@) {
        "    "@ + cs[i].text@ + ";\n"@
    } else {
        indent4_spec(cs[i].text@)
    }
}

pub open spec fn ts_abstract_members_spec(cs: Seq<SynNode>, i: int) -> Seq<char>
    decreases cs.len() - i,
{
    if !(0 <= i < cs.len()) {
        Seq::empty()
    } else {
        ts_abstract_member_piece(cs, i) + ts_abstract_members_spec(cs, i + 1)
    }
}

pub open spec fn ts_abstract_head(n: SynNode) -> Seq<char> {
    let name = match field_text(n, "name"@) {
        Some(t) => t,
        None => "UnnamedAbstractClass"@,
    };
    "abstract class "@ + name + " {\n"@
}

pub open spec fn ts_abstract_spec(n: SynNode) -> Seq<char> {
    let j = idx_of_field(n.children@, "body"@);
    let mem = if 0 <= j < n.children@.len() {
        ts_abstract_members_spec(n.children@[j].children@, 0)
    } else {
        Seq::empty()
    };
    ts_abstract_head(n) + mem + "}\n"@
}

/// One interface member's contribution.
pub open spec fn ts_iface_member_piece(cs: Seq<SynNode>, i: int) -> Seq<char> {
    if !(0 <= i < cs.len()) {
        Seq::empty()
    } else if !cs[i].named {
        Seq::empty()
    } else if kind_is(cs[i], "formal_parameters"@) || kind_is(cs[i], "property_definition"@) {
        "    "@ + cs[i].text@ + ";\n"@
    } else {
        indent4_spec(cs[i].text@)
    }
}

pub open spec fn ts_iface_members_spec(cs: Seq<SynNode>, i: int) -> Seq<char>
    decreases cs.len() - i,
{
    if !(0 <= i < cs.len()) {
        Seq::empty()
    } else {
        ts_iface_member_piece(cs, i) + ts_iface_members_spec(cs, i + 1)
    }
}

pub open spec fn ts_iface_head(n: SynNode) -> Seq<char> {
    let name = match field_text(n, "name"@) {
        Some(t) => t,
        None => "UnnamedInterface"@,
    };
    "interface "@ + name + " {\n"@
}

pub open spec fn ts_iface_spec(n: SynNode) -> Seq<char> {
    let j = idx_of_field(n.children@, "body"@);
    let mem = if 0 <= j < n.children@.len() {
        ts_iface_members_spec(n.children@[j].children@, 0)
    } else {
        Seq::empty()
    };
    ts_iface_head(n) + mem + "}\n"@
}

pub open spec fn ts_node_spec(n: SynNode) -> Seq<char>
    decreases n, 3int,
{
    if kind_is(n, "program"@) {
        ts_program_spec(n)
    } else if kind_is(n, "class_declaration"@) {
        ts_class_spec(n)
    } else if kind_is(n, "function_declaration"@) {
        ts_function_spec(n)
    } else if kind_is(n, "method_definition"@) {
        ts_method_spec(n)
    } else if kind_is(n, "export_statement"@) {
        ts_export_spec(n)
    } else if kind_is(n, "variable_declaration"@) {
        ts_var_spec(n)
    } else if kind_is(n, "comment"@) {
        Seq::empty()
    } else {
        n.text@
    }
}

/// An export wrapper re-emits the `export` keyword and the simplified form
/// of the wrapped declaration.
pub open spec fn ts_export_spec(n: SynNode) -> Seq<char>
    decreases n, 2int,
{
    if n.children@.len() < 2 {
        Seq::empty()
    } else {
        let d = n.children@[1];
        if kind_is(d, "function_declaration"@) {
            "export "@ + ts_function_spec(d)
        } else if kind_is(d, "class_declaration"@) {
            "export "@ + ts_class_spec(d)
        } else if kind_is(d, "interface_declaration"@) {
            "export "@ + ts_iface_spec(d)
        } else if kind_is(d, "abstract_class_declaration"@) {
            "export "@ + ts_abstract_spec(d)
        } else if kind_is(d, "default_keyword"@) {
            if n.children@.len() > 2 {
                "export default "@ + ts_class_spec(n.children@[2])
            } else {
                Seq::empty()
            }
        } else {
            "export "@ + ts_node_spec(d)
        }
    }
}

pub open spec fn ts_program_items_spec(cs: Seq<SynNode>, i: int) -> Seq<char>
    decreases cs, cs.len() - i,
{
    if !(0 <= i < cs.len()) {
        Seq::empty()
    } else {
        let t = ts_node_spec(cs[i]);
        (if all_ws(t) {
            Seq::empty()
        } else {
            t + "\n"@
        }) + ts_program_items_spec(cs, i + 1)
    }
}

pub open spec fn ts_program_spec(n: SynNode) -> Seq<char>
    decreases n, 2int,
{
    trim_end_spec(ts_program_items_spec(n.children@, 0))
}

/// What simplification yields for a TypeScript source text.
pub open spec fn ts_simplify_spec(code: Seq<char>) -> Option<Seq<char>> {
    match ts_tree_of(code) {
        Some(t) => Some(ts_node_spec(t)),
        None => None,
    }
}

pub fn process_function(n: &SynNode) -> (r: Vec<char>)
    ensures
        r@ == ts_function_spec(*n),
{
    let mut r: Vec<char> = Vec::new();
    push_str(&mut r, "function ");
    match field_text_of(n, "name") {
        Some(v) => push_chars(&mut r, &v),
        None => push_str(&mut r, "unnamed"),
    }
    match field_text_of(n, "parameters") {
        Some(v) => push_chars(&mut r, &v),
        None => push_str(&mut r, "()"),
    }
    push_str(&mut r, "{ }\n");
    r
}

pub fn process_method(n: &SynNode) -> (r: Vec<char>)
    ensures
        r@ == ts_method_spec(*n),
{
    let mut r: Vec<char> = Vec::new();
    let name = match field_text_of(n, "name") {
        Some(v) => v,
        None => crate::text::str_chars("unnamed"),
    };
    push_chars(&mut r, &name);
    match field_text_of(n, "parameters") {
        Some(v) => push_chars(&mut r, &v),
        None => push_str(&mut r, "()"),
    }
    if chars_eq_str(&name, "constructor") {
        match field_text_of(n, "body") {
            Some(b) => push_chars(&mut r, &b),
            None => {},
        }
    }
    push_str(&mut r, " { }");
    r
}

pub fn process_variable_declaration(n: &SynNode) -> (r: Vec<char>)
    ensures
        r@ == ts_var_spec(*n),
{
    let mut r: Vec<char> = Vec::new();
    match field_child(n, "declarators") {
        Some(j) => {
            let ds = &n.children[j];
            let mut i: usize = 0;
            while i < ds.children.len()
                invariant
                    i <= ds.children@.len(),
                    *ds == n.children@[idx_of_field(n.children@, "declarators"@)],
                    0 <= idx_of_field(n.children@, "declarators"@) < n.children@.len(),
                    ts_declarators_spec(ds.children@, 0) == r@ + ts_declarators_spec(
                        ds.children@,
                        i as int,
                    ),
                decreases ds.children@.len() - i,
            {
                let ghost r0 = r@;
                let c = &ds.children[i];
                match field_text_of(c, "name") {
                    Some(nm) => {
                        push_str(&mut r, "const ");
                        push_chars(&mut r, &nm);
                        match field_text_of(c, "init") {
                            Some(v) => {
                                push_str(&mut r, " = ");
                                push_chars(&mut r, &v);
                                push_str(&mut r, ";\n");
                            },
                            None => {
                                push_str(&mut r, ";\n");
                            },
                        }
                    },
                    None => {},
                }
                proof {
                    let piece = ts_declarator_piece(ds.children@, i as int);
                    assert(r@ == r0 + piece) by {
                        if piece.len() == 0 {
                            assert(r0 + piece =~= r0);
                        }
                    }
                    assert(r0 + (piece + ts_declarators_spec(ds.children@, i + 1)) =~= (r0 + piece)
                        + ts_declarators_spec(ds.children@, i + 1));
                }
                i += 1;
            }
            proof {
                assert(r@ + Seq::<char>::empty() =~= r@);
            }
        },
        None => {},
    }
    r
}

pub fn process_class(n: &SynNode) -> (r: Vec<char>)
    ensures
        r@ == ts_class_spec(*n),
{
    let mut r: Vec<char> = Vec::new();
    push_str(&mut r, "class ");
    match field_text_of(n, "name") {
        Some(v) => push_chars(&mut r, &v),
        None => push_str(&mut r, "UnnamedClass"),
    }
    push_str(&mut r, " {\n");
    match field_child(n, "body") {
        Some(j) => {
            let body = &n.children[j];
            let mut i: usize = 0;
            while i < body.children.len()
                invariant
                    i <= body.children@.len(),
                    *body == n.children@[idx_of_field(n.children@, "body"@)],
                    0 <= idx_of_field(n.children@, "body"@) < n.children@.len(),
                    ts_class_head(*n) + ts_class_members_spec(body.children@, 0) == r@
                        + ts_class_members_spec(body.children@, i as int),
                decreases body.children@.len() - i,
            {
                let ghost r0 = r@;
                let c = &body.children[i];
                if !c.named {
                    // anonymous punctuation: the class emits its own braces
                } else if node_kind_is(c, "method_definition") {
                    let t = process_method(c);
                    let ind = indent4(&t);
                    push_chars(&mut r, &ind);
                } else if node_kind_is(c, "public_field_definition") {
                    push_str(&mut r, "    ");
                    push_chars(&mut r, &c.text);
                    push_str(&mut r, "\n");
                } else {
                    let ind = indent4(&c.text);
                    push_chars(&mut r, &ind);
                }
                proof {
                    let piece = ts_class_member_piece(body.children@, i as int);
                    assert(r@ == r0 + piece) by {
                        if body.children@[i as int].named && kind_is(
                            body.children@[i as int],
                            "public_field_definition"@,
                        ) && !kind_is(body.children@[i as int], "method_definition"@) {
                            assert(((r0 + "    "@) + body.children@[i as int].text@) + "\n"@ =~= r0
                                + piece);
                        } else if piece.len() == 0 {
                            assert(r0 + piece =~= r0);
                        }
                    }
                    assert(r0 + (piece + ts_class_members_spec(body.children@, i + 1)) =~= (r0
                        + piece) + ts_class_members_spec(body.children@, i + 1));
                }
                i += 1;
            }
            proof {
                assert(r@ + Seq::<char>::empty() =~= r@);
            }
        },
        None => {},
    }
    push_str(&mut r, "}\n");
    r
}

pub fn process_abstract_class(n: &SynNode) -> (r: Vec<char>)
    ensures
        r@ == ts_abstract_spec(*n),
{
    let mut r: Vec<char> = Vec::new();
    push_str(&mut r, "abstract class ");
    match field_text_of(n, "name") {
        Some(v) => push_chars(&mut r, &v),
        None => push_str(&mut r, "UnnamedAbstractClass"),
    }
    push_str(&mut r, " {\n");
    match field_child(n, "body") {
        Some(j) => {
            let body = &n.children[j];
            let mut i: usize = 0;
            while i < body.children.len()
                invariant
                    i <= body.children@.len(),
                    *body == n.children@[idx_of_field(n.children@, "body"@)],
                    0 <= idx_of_field(n.children@, "body"@) < n.children@.len(),
                    ts_abstract_head(*n) + ts_abstract_members_spec(body.children@, 0) == r@
                        + ts_abstract_members_spec(body.children@, i as int),
                decreases body.children@.len() - i,
            {
                let ghost r0 = r@;
                let c = &body.children[i];
                if !c.named {
                    // anonymous punctuation
                } else if node_kind_is(c, "method_definition") {
                    let t = process_method(c);
                    let ind = indent4(&t);
                    push_chars(&mut r, &ind);
                } else if node_kind_is(c, "public_field_definition") {
                    push_str(&mut r, "    ");
                    push_chars(&mut r, &c.text);
                    push_str(&mut r, ";\n");
                } else {
                    let ind = indent4(&c.text);
                    push_chars(&mut r, &ind);
                }
                proof {
                    let piece = ts_abstract_member_piece(body.children@, i as int);
                    assert(r@ == r0 + piece) by {
                        if body.children@[i as int].named && kind_is(
                            body.children@[i as int],
                            "public_field_definition"@,
                        ) && !kind_is(body.children@[i as int], "method_definition"@) {
                            assert(((r0 + "    "@) + body.children@[i as int].text@) + ";\n"@ =~= r0
                                + piece);
                        } else if piece.len() == 0 {
                            assert(r0 + piece =~= r0);
                        }
                    }
                    assert(r0 + (piece + ts_abstract_members_spec(body.children@, i + 1)) =~= (r0
                        + piece) + ts_abstract_members_spec(body.children@, i + 1));
                }
                i += 1;
            }
            proof {
                assert(r@ + Seq::<char>::empty() =~= r@);
            }
        },
        None => {},
    }
    push_str(&mut r, "}\n");
    r
}

pub fn process_interface(n: &SynNode) -> (r: Vec<char>)
    ensures
        r@ == ts_iface_spec(*n),
{
    let mut r: Vec<char> = Vec::new();
    push_str(&mut r, "interface ");
    match field_text_of(n, "name") {
        Some(v) => push_chars(&mut r, &v),
        None => push_str(&mut r, "UnnamedInterface"),
    }
    push_str(&mut r, " {\n");
    match field_child(n, "body") {
        Some(j) => {
            let body = &n.children[j];
            let mut i: usize = 0;
            while i < body.children.len()
                invariant
                    i <= body.children@.len(),
                    *body == n.children@[idx_of_field(n.children@, "body"@)],
                    0 <= idx_of_field(n.children@, "body"@) < n.children@.len(),
                    ts_iface_head(*n) + ts_iface_members_spec(body.children@, 0) == r@
                        + ts_iface_members_spec(body.children@, i as int),
                decreases body.children@.len() - i,
            {
                let ghost r0 = r@;
                let c = &body.children[i];
                if !c.named {
                    // anonymous punctuation
                } else if node_kind_is(c, "formal_parameters") || node_kind_is(
                    c,
                    "property_definition",
                ) {
                    push_str(&mut r, "    ");
                    push_chars(&mut r, &c.text);
                    push_str(&mut r, ";\n");
                } else {
                    let ind = indent4(&c.text);
                    push_chars(&mut r, &ind);
                }
                proof {
                    let piece = ts_iface_member_piece(body.children@, i as int);
                    assert(r@ == r0 + piece) by {
                        if body.children@[i as int].named && (kind_is(
                            body.children@[i as int],
                            "formal_parameters"@,
                        ) || kind_is(body.children@[i as int], "property_definition"@)) {
                            assert(((r0 + "    "@) + body.children@[i as int].text@) + ";\n"@ =~= r0
                                + piece);
                        } else if piece.len() == 0 {
                            assert(r0 + piece =~= r0);
                        }
                    }
                    assert(r0 + (piece + ts_iface_members_spec(body.children@, i + 1)) =~= (r0
                        + piece) + ts_iface_members_spec(body.children@, i + 1));
                }
                i += 1;
            }
            proof {
                assert(r@ + Seq::<char>::empty() =~= r@);
            }
        },
        None => {},
    }
    push_str(&mut r, "}\n");
    r
}

pub fn process_export(n: &SynNode) -> (r: Vec<char>)
    ensures
        r@ == ts_export_spec(*n),
    decreases *n, 2int,
{
    if n.children.len() < 2 {
        Vec::new()
    } else {
        let d = &n.children[1];
        let mut r: Vec<char> = Vec::new();
        if node_kind_is(d, "function_declaration") {
            push_str(&mut r, "export ");
            let t = process_function(d);
            push_chars(&mut r, &t);
        } else if node_kind_is(d, "class_declaration") {
            push_str(&mut r, "export ");
            let t = process_class(d);
            push_chars(&mut r, &t);
        } else if node_kind_is(d, "interface_declaration") {
            push_str(&mut r, "export ");
            let t = process_interface(d);
            push_chars(&mut r, &t);
        } else if node_kind_is(d, "abstract_class_declaration") {
            push_str(&mut r, "export ");
            let t = process_abstract_class(d);
            push_chars(&mut r, &t);
        } else if node_kind_is(d, "default_keyword") {
            if n.children.len() > 2 {
                push_str(&mut r, "export default ");
                let t = process_class(&n.children[2]);
                push_chars(&mut r, &t);
            }
        } else {
            push_str(&mut r, "export ");
            let t = process_node(d);
            push_chars(&mut r, &t);
        }
        r
    }
}

pub fn process_node(n: &SynNode) -> (r: Vec<char>)
    ensures
        r@ == ts_node_spec(*n),
    decreases *n, 3int,
{
    if node_kind_is(n, "program") {
        process_program(n)
    } else if node_kind_is(n, "class_declaration") {
        process_class(n)
    } else if node_kind_is(n, "function_declaration") {
        process_function(n)
    } else if node_kind_is(n, "method_definition") {
        process_method(n)
    } else if node_kind_is(n, "export_statement") {
        process_export(n)
    } else if node_kind_is(n, "variable_declaration") {
        process_variable_declaration(n)
    } else if node_kind_is(n, "comment") {
        Vec::new()
    } else {
        clone_chars(&n.text)
    }
}

pub fn process_program(n: &SynNode) -> (r: Vec<char>)
    ensures
        r@ == ts_program_spec(*n),
    decreases *n, 2int,
{
    let mut acc: Vec<char> = Vec::new();
    let mut i: usize = 0;
    while i < n.children.len()
        invariant
            i <= n.children@.len(),
            ts_program_items_spec(n.children@, 0) == acc@ + ts_program_items_spec(
                n.children@,
                i as int,
            ),
        decreases n.children@.len() - i,
    {
        let ghost acc0 = acc@;
        let t = process_node(&n.children[i]);
        if !is_blank(&t) {
            push_chars(&mut acc, &t);
            push_str(&mut acc, "\n");
        }
        proof {
            assert(acc0 + ((t@ + "\n"@) + ts_program_items_spec(n.children@, i + 1)) =~= ((acc0
                + t@) + "\n"@) + ts_program_items_spec(n.children@, i + 1));
            assert(acc0 + (Seq::<char>::empty() + ts_program_items_spec(n.children@, i + 1)) =~=
                acc0 + ts_program_items_spec(n.children@, i + 1));
        }
        i += 1;
    }
    proof {
        assert(acc@ + Seq::<char>::empty() =~= acc@);
    }
    trim_end(&acc)
}

/// Segmenter for TypeScript sources: holds the parsed tree of one file.
pub struct TypeScriptSegmenter {
    pub tree: SynNode,
}

impl TypeScriptSegmenter {
    /// Parses the text; `None` reports a parse failure, never a panic.
    pub fn new(code: &str) -> (r: Option<TypeScriptSegmenter>)
        ensures
            match r {
                Some(s) => ts_tree_of(code@) == Some(s.tree),
                None => ts_tree_of(code@) is None,
            },
    {
        match parse_typescript(code) {
            Some(t) => Some(TypeScriptSegmenter { tree: t }),
            None => None,
        }
    }

    /// The simplified text: a pure function of the parsed tree.
    pub fn simplify_code(&self) -> (r: String)
        ensures
            r@ == ts_node_spec(self.tree),
    {
        let v = process_node(&self.tree);
        chars_to_string(&v)
    }
}

/// Body elision: a method that is not a constructor is reduced to its name
/// and parameter list with an empty body marker.
pub proof fn lemma_typescript_body_elision(n: SynNode)
    requires
        ts_m_name(n) != "constructor"@,
    ensures
        ts_method_spec(n) == ts_m_name(n) + ts_m_params(n) + " { }"@,
{
}

/// Verbatim-override preservation: a constructor with a body keeps the
/// whole body text between its parameter list and the trailing marker.
pub proof fn lemma_typescript_constructor_preserved(n: SynNode, b: Seq<char>)
    requires
        ts_m_name(n) == "constructor"@,
        field_text(n, "body"@) == Some(b),
    ensures
        ts_method_spec(n) == ts_m_name(n) + ts_m_params(n) + b + " { }"@,
{
}

} // verus!
