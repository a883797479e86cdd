//! JavaScript segmenter.
//!
//! Functions of every flavour are reduced to a stub, classes keep their
//! member outlines, export wrappers are unwrapped and re-emitted, and a
//! handful of expression forms (calls, member accesses, conditionals,
//! awaits, arrow functions) are rebuilt around their simplified parts.
//! Unrecognized named nodes are kept verbatim.

use vstd::prelude::*;
use crate::syntax::SynNode;
use crate::syntax::kind_is;
use crate::syntax::field_text;
use crate::syntax::field_text_of;
use crate::syntax::field_child;
use crate::syntax::idx_of_field;
use crate::syntax::node_kind_is;
use crate::text::all_ws;
use crate::text::trim_end_spec;
use crate::text::indent4_spec;
use crate::text::indent4;
use crate::text::is_blank;
use crate::text::chars_eq_str;
use crate::text::trim_end;
use crate::text::push_chars;
use crate::text::push_str;
use crate::text::clone_chars;
use crate::text::chars_to_string;
use crate::parse::parse_javascript;
use crate::parse::js_tree_of;

verus! {

/// Whether a node kind is one of the function-like declaration forms that
/// all share the same stub.
pub open spec fn js_is_function_kind(n: SynNode) -> bool {
    kind_is(n, "function_declaration"@) || kind_is(n, "method_definition"@) || kind_is(
        n,
        "function_expression"@,
    ) || kind_is(n, "generator_function_declaration"@) || kind_is(n, "generator_function"@)
        || kind_is(n, "async_function_declaration"@) || kind_is(n, "async_function_expression"@)
        || kind_is(n, "constructor"@)
}

pub open spec fn js_fn_name(n: SynNode) -> Seq<char> {
    match field_text(n, "name"@) {
        Some(t) => t,
        None => Seq::empty(),
    }
}

pub open spec fn js_fn_params(n: SynNode) -> Seq<char> {
    match field_text(n, "parameters"@) {
        Some(t) => t,
        None => "()"@,
    }
}

/// A function's simplified form: a `function` header and a fixed marker
/// body; the original body is discarded.
pub open spec fn js_function_spec(n: SynNode) -> Seq<char> {
    "function "@ + js_fn_name(n) + js_fn_params(n) + "  {\n    // implementation\n}\n"@
}

/// One class-body member's contribution: a method named `constructor` is
/// the verbatim-override kind and keeps its whole node text, body
/// included; other methods are stubbed; every piece is re-indented.
pub open spec fn js_member_piece(cs: Seq<SynNode>, i: int) -> Seq<char> {
    if !(0 <= i < cs.len()) {
        Seq::empty()
    } else if !cs[i].named {
        Seq::empty()
    } else if kind_is(cs[i], "method_definition"@) && js_fn_name(cs[i]) == "constructor"@ {
        indent4_spec(cs[i].text@)
    } else if kind_is(cs[i], "method_definition"@) || kind_is(cs[i], "function_declaration"@) {
        indent4_spec(js_function_spec(cs[i]))
    } else {
        indent4_spec(cs[i].text@)
    }
}

pub open spec fn js_members_spec(cs: Seq<SynNode>, i: int) -> Seq<char>
    decreases cs.len() - i,
{
    if !(0 <= i < cs.len()) {
        Seq::empty()
    } else {
        js_member_piece(cs, i) + js_members_spec(cs, i + 1)
    }
}

pub open spec fn js_class_head(n: SynNode) -> Seq<char> {
    let name = match field_text(n, "name"@) {
        Some(t) => t,
        None => "UnnamedClass"@,
    };
    "class "@ + name + " {\n"@
}

pub open spec fn js_class_spec(n: SynNode) -> Seq<char> {
    let j = idx_of_field(n.children@, "body"@);
    let mem = if 0 <= j < n.children@.len() {
        js_members_spec(n.children@[j].children@, 0)
    } else {
        Seq::empty()
    };
    js_class_head(n) + mem + "}\n"@
}

pub open spec fn js_node_spec(n: SynNode) -> Seq<char>
    decreases n, 3int,
{
    if kind_is(n, "program"@) {
        js_program_spec(n)
    } else if kind_is(n, "class_declaration"@) {
        js_class_spec(n)
    } else if kind_is(n, "lexical_declaration"@) {
        js_lexical_spec(n)
    } else if kind_is(n, "if_statement"@) {
        js_if_spec(n)
    } else if kind_is(n, "await_expression"@) {
        js_await_spec(n)
    } else if kind_is(n, "call_expression"@) {
        js_call_spec(n)
    } else if kind_is(n, "member_expression"@) {
        js_member_expr_spec(n)
    } else if js_is_function_kind(n) {
        js_function_spec(n)
    } else if kind_is(n, "arrow_function"@) || kind_is(n, "async_arrow_function"@) {
        js_arrow_spec(n)
    } else if kind_is(n, "export_statement"@) {
        js_export_spec(n)
    } else if kind_is(n, "jsx_element"@) {
        "// JSX element\n"@
    } else if kind_is(n, "variable_declaration"@) {
        js_var_spec(n)
    } else {
        n.text@
    }
}

/// Program children: each non-blank simplified child followed by a
/// newline.
pub open spec fn js_program_items_spec(cs: Seq<SynNode>, i: int) -> Seq<char>
    decreases cs, cs.len() - i,
{
    if !(0 <= i < cs.len()) {
        Seq::empty()
    } else {
        let t = js_node_spec(cs[i]);
        (if all_ws(t) {
            Seq::empty()
        } else {
            t + "\n"@
        }) + js_program_items_spec(cs, i + 1)
    }
}

pub open spec fn js_program_spec(n: SynNode) -> Seq<char>
    decreases n, 2int,
{
    trim_end_spec(js_program_items_spec(n.children@, 0))
}

/// An export wrapper: the declaration after the `export` keyword is
/// simplified and re-emitted behind it.  A `default` keyword stands right
/// after `export`, and the defaulted declaration follows it.
pub open spec fn js_export_spec(n: SynNode) -> Seq<char>
    decreases n, 2int,
{
    if n.children@.len() < 2 {
        n.text@
    } else if kind_is(n.children@[1], "default"@) {
        if n.children@.len() > 2 {
            js_default_export_spec(n.children@[2])
        } else {
            n.text@
        }
    } else {
        "export "@ + js_node_spec(n.children@[1]) + "\n"@
    }
}

pub open spec fn js_default_export_spec(d: SynNode) -> Seq<char>
    decreases d, 2int,
{
    if kind_is(d, "function_declaration"@) {
        "export default "@ + js_function_spec(d)
    } else if kind_is(d, "class_declaration"@) {
        "export default "@ + js_class_spec(d)
    } else if kind_is(d, "identifier"@) {
        "export default "@ + d.text@ + "\n"@
    } else {
        "export default // ...\n"@
    }
}

/// A `var` declaration: a declarator with a function-valued initializer
/// keeps a simplified initializer, anything else is elided to a marker.
pub open spec fn js_var_spec(n: SynNode) -> Seq<char>
    decreases n, 2int,
{
    let j = idx_of_field(n.children@, "declarator"@);
    if !(0 <= j < n.children@.len()) {
        n.text@
    } else {
        let d = n.children@[j];
        match field_text(d, "name"@) {
            Some(nm) => {
                let k = idx_of_field(d.children@, "value"@);
                if 0 <= k < d.children@.len() {
                    let v = d.children@[k];
                    if kind_is(v, "arrow_function"@) {
                        "const "@ + nm + " = "@ + js_arrow_spec(v) + "\n"@
                    } else if kind_is(v, "function_expression"@) {
                        "const "@ + nm + " = "@ + js_function_spec(v) + "\n"@
                    } else {
                        "const "@ + nm + " = // ...\n"@
                    }
                } else {
                    "const "@ + nm + " = // ...\n"@
                }
            },
            None => n.text@,
        }
    }
}

/// A `let`/`const` declaration, rebuilt from its labelled parts.
pub open spec fn js_lexical_spec(n: SynNode) -> Seq<char>
    decreases n, 2int,
{
    (match field_text(n, "const"@) {
        Some(t) => t + " "@,
        None => Seq::empty(),
    }) + (
    {
        let j = idx_of_field(n.children@, "declarator"@);
        if 0 <= j < n.children@.len() {
            let d = n.children@[j];
            (match field_text(d, "name"@) {
                Some(nm) => nm + " = "@,
                None => Seq::empty(),
            }) + (
            {
                let k = idx_of_field(d.children@, "value"@);
                if 0 <= k < d.children@.len() {
                    js_node_spec(d.children@[k])
                } else {
                    Seq::empty()
                }
            })
        } else {
            Seq::empty()
        }
    }) + ";"@
}

/// An arrow function: its parameter list, the arrow, and the simplified
/// body expression.
pub open spec fn js_arrow_spec(n: SynNode) -> Seq<char>
    decreases n, 2int,
{
    (match field_text(n, "parameters"@) {
        Some(t) => t,
        None => Seq::empty(),
    }) + " => "@ + (
    {
        let j = idx_of_field(n.children@, "body"@);
        if 0 <= j < n.children@.len() {
            js_node_spec(n.children@[j])
        } else {
            Seq::empty()
        }
    })
}

/// A member access: simplified object, a dot, and the property text.
pub open spec fn js_member_expr_spec(n: SynNode) -> Seq<char>
    decreases n, 2int,
{
    (if n.children@.len() > 0 {
        js_node_spec(n.children@[0])
    } else {
        Seq::empty()
    }) + "."@ + (if n.children@.len() > 1 {
        n.children@[1].text@
    } else {
        Seq::empty()
    })
}

/// An `if` statement, rebuilt around its simplified condition and branches.
pub open spec fn js_if_spec(n: SynNode) -> Seq<char>
    decreases n, 2int,
{
    "if ("@ + (
    {
        let j = idx_of_field(n.children@, "condition"@);
        if 0 <= j < n.children@.len() {
            js_node_spec(n.children@[j])
        } else {
            Seq::empty()
        }
    }) + ") {\n"@ + (
    {
        let j = idx_of_field(n.children@, "consequence"@);
        if 0 <= j < n.children@.len() {
            js_node_spec(n.children@[j])
        } else {
            Seq::empty()
        }
    }) + "\n}"@ + (
    {
        let j = idx_of_field(n.children@, "alternative"@);
        if 0 <= j < n.children@.len() {
            " else {\n"@ + js_node_spec(n.children@[j]) + "\n}"@
        } else {
            Seq::empty()
        }
    })
}

pub open spec fn js_await_spec(n: SynNode) -> Seq<char>
    decreases n, 2int,
{
    "await "@ + (if n.children@.len() > 1 {
        js_node_spec(n.children@[1])
    } else {
        Seq::empty()
    })
}

/// The named arguments of a call, simplified and joined by commas.
pub open spec fn js_args_spec(cs: Seq<SynNode>, i: int, first: bool) -> Seq<char>
    decreases cs, cs.len() - i,
{
    if !(0 <= i < cs.len()) {
        Seq::empty()
    } else if !cs[i].named {
        js_args_spec(cs, i + 1, first)
    } else {
        (if first {
            Seq::empty()
        } else {
            ", "@
        }) + js_node_spec(cs[i]) + js_args_spec(cs, i + 1, false)
    }
}

pub open spec fn js_call_spec(n: SynNode) -> Seq<char>
    decreases n, 2int,
{
    (if n.children@.len() > 0 {
        js_node_spec(n.children@[0])
    } else {
        Seq::empty()
    }) + "("@ + (
    {
        let j = idx_of_field(n.children@, "arguments"@);
        if 0 <= j < n.children@.len() {
            js_args_spec(n.children@[j].children@, 0, true)
        } else {
            Seq::empty()
        }
    }) + ")"@
}

/// What simplification yields for a JavaScript source text.
pub open spec fn js_simplify_spec(code: Seq<char>) -> Option<Seq<char>> {
    match js_tree_of(code) {
        Some(t) => Some(js_node_spec(t)),
        None => None,
    }
}

pub fn process_function(n: &SynNode) -> (r: Vec<char>)
    ensures
        r@ == js_function_spec(*n),
{
    let mut r: Vec<char> = Vec::new();
    push_str(&mut r, "function ");
    match field_text_of(n, "name") {
        Some(v) => push_chars(&mut r, &v),
        None => {},
    }
    match field_text_of(n, "parameters") {
        Some(v) => push_chars(&mut r, &v),
        None => push_str(&mut r, "()"),
    }
    push_str(&mut r, "  {\n    // implementation\n}\n");
    proof {
        if field_text(*n, "name"@) is None {
            assert(r@ == ("function "@ + Seq::<char>::empty()) + js_fn_params(*n)
                + "  {\n    // implementation\n}\n"@) by {
                assert("function "@ + Seq::<char>::empty() =~= "function "@);
            }
        }
    }
    r
}

pub fn process_class(n: &SynNode) -> (r: Vec<char>)
    ensures
        r@ == js_class_spec(*n),
{
    let mut r: Vec<char> = Vec::new();
    push_str(&mut r, "class ");
    match field_text_of(n, "name") {
        Some(v) => push_chars(&mut r, &v),
        None => push_str(&mut r, "UnnamedClass"),
    }
    push_str(&mut r, " {\n");
    match field_child(n, "body") {
        Some(j) => {
            let body = &n.children[j];
            let mut i: usize = 0;
            while i < body.children.len()
                invariant
                    i <= body.children@.len(),
                    *body == n.children@[idx_of_field(n.children@, "body"@)],
                    0 <= idx_of_field(n.children@, "body"@) < n.children@.len(),
                    js_class_head(*n) + js_members_spec(body.children@, 0) == r@
                        + js_members_spec(body.children@, i as int),
                decreases body.children@.len() - i,
            {
                let ghost r0 = r@;
                let c = &body.children[i];
                if !c.named {
                    // anonymous punctuation: the class emits its own braces
                } else if node_kind_is(c, "method_definition") {
                    proof {
                        reveal_strlit("constructor");
                    }
                    let is_ctor = match field_text_of(c, "name") {
                        Some(nm) => chars_eq_str(&nm, "constructor"),
                        None => false,
                    };
                    if is_ctor {
                        let ind = indent4(&c.text);
                        push_chars(&mut r, &ind);
                    } else {
                        let t = process_function(c);
                        let ind = indent4(&t);
                        push_chars(&mut r, &ind);
                    }
                } else if node_kind_is(c, "function_declaration") {
                    let t = process_function(c);
                    let ind = indent4(&t);
                    push_chars(&mut r, &ind);
                } else {
                    let ind = indent4(&c.text);
                    push_chars(&mut r, &ind);
                }
                proof {
                    let piece = js_member_piece(body.children@, i as int);
                    assert(r@ == r0 + piece) by {
                        if piece.len() == 0 {
                            assert(r0 + piece =~= r0);
                        }
                    }
                    assert(r0 + (piece + js_members_spec(body.children@, i + 1)) =~= (r0 + piece)
                        + js_members_spec(body.children@, i + 1));
                }
                i += 1;
            }
            proof {
                assert(r@ + Seq::<char>::empty() =~= r@);
            }
        },
        None => {},
    }
    push_str(&mut r, "}\n");
    r
}

pub fn process_node(n: &SynNode) -> (r: Vec<char>)
    ensures
        r@ == js_node_spec(*n),
    decreases *n, 3int,
{
    if node_kind_is(n, "program") {
        process_program(n)
    } else if node_kind_is(n, "class_declaration") {
        process_class(n)
    } else if node_kind_is(n, "lexical_declaration") {
        process_lexical_declaration(n)
    } else if node_kind_is(n, "if_statement") {
        process_if_statement(n)
    } else if node_kind_is(n, "await_expression") {
        process_await_expression(n)
    } else if node_kind_is(n, "call_expression") {
        process_call_expression(n)
    } else if node_kind_is(n, "member_expression") {
        process_member_expression(n)
    } else if node_kind_is(n, "function_declaration") || node_kind_is(n, "method_definition")
        || node_kind_is(n, "function_expression") || node_kind_is(
        n,
        "generator_function_declaration",
    ) || node_kind_is(n, "generator_function") || node_kind_is(n, "async_function_declaration")
        || node_kind_is(n, "async_function_expression") || node_kind_is(n, "constructor") {
        process_function(n)
    } else if node_kind_is(n, "arrow_function") || node_kind_is(n, "async_arrow_function") {
        process_arrow_function(n)
    } else if node_kind_is(n, "export_statement") {
        process_export(n)
    } else if node_kind_is(n, "jsx_element") {
        process_jsx(n)
    } else if node_kind_is(n, "variable_declaration") {
        process_variable_declaration(n)
    } else {
        clone_chars(&n.text)
    }
}

pub fn process_jsx(n: &SynNode) -> (r: Vec<char>)
    ensures
        r@ == "// JSX element\n"@,
{
    let mut r: Vec<char> = Vec::new();
    push_str(&mut r, "// JSX element\n");
    proof {
        assert(Seq::<char>::empty() + "// JSX element\n"@ =~= "// JSX element\n"@);
    }
    r
}

pub fn process_program(n: &SynNode) -> (r: Vec<char>)
    ensures
        r@ == js_program_spec(*n),
    decreases *n, 2int,
{
    let mut acc: Vec<char> = Vec::new();
    let mut i: usize = 0;
    while i < n.children.len()
        invariant
            i <= n.children@.len(),
            js_program_items_spec(n.children@, 0) == acc@ + js_program_items_spec(
                n.children@,
                i as int,
            ),
        decreases n.children@.len() - i,
    {
        let ghost acc0 = acc@;
        let t = process_node(&n.children[i]);
        if !is_blank(&t) {
            push_chars(&mut acc, &t);
            push_str(&mut acc, "\n");
        }
        proof {
            assert(acc0 + ((t@ + "\n"@) + js_program_items_spec(n.children@, i + 1)) =~= ((acc0
                + t@) + "\n"@) + js_program_items_spec(n.children@, i + 1));
            assert(acc0 + (Seq::<char>::empty() + js_program_items_spec(n.children@, i + 1)) =~=
                acc0 + js_program_items_spec(n.children@, i + 1));
        }
        i += 1;
    }
    proof {
        assert(acc@ + Seq::<char>::empty() =~= acc@);
    }
    trim_end(&acc)
}

pub fn process_export(n: &SynNode) -> (r: Vec<char>)
    ensures
        r@ == js_export_spec(*n),
    decreases *n, 2int,
{
    if n.children.len() < 2 {
        clone_chars(&n.text)
    } else if node_kind_is(&n.children[1], "default") {
        if n.children.len() > 2 {
            process_default_export(&n.children[2])
        } else {
            clone_chars(&n.text)
        }
    } else {
        let mut r: Vec<char> = Vec::new();
        push_str(&mut r, "export ");
        let t = process_node(&n.children[1]);
        push_chars(&mut r, &t);
        push_str(&mut r, "\n");
        r
    }
}

pub fn process_default_export(d: &SynNode) -> (r: Vec<char>)
    ensures
        r@ == js_default_export_spec(*d),
    decreases *d, 2int,
{
    let mut r: Vec<char> = Vec::new();
    if node_kind_is(d, "function_declaration") {
        push_str(&mut r, "export default ");
        let t = process_function(d);
        push_chars(&mut r, &t);
    } else if node_kind_is(d, "class_declaration") {
        push_str(&mut r, "export default ");
        let t = process_class(d);
        push_chars(&mut r, &t);
    } else if node_kind_is(d, "identifier") {
        push_str(&mut r, "export default ");
        push_chars(&mut r, &d.text);
        push_str(&mut r, "\n");
    } else {
        push_str(&mut r, "export default // ...\n");
        proof {
            assert(Seq::<char>::empty() + "export default // ...\n"@ =~= "export default // ...\n"@);
        }
    }
    r
}

pub fn process_variable_declaration(n: &SynNode) -> (r: Vec<char>)
    ensures
        r@ == js_var_spec(*n),
    decreases *n, 2int,
{
    match field_child(n, "declarator") {
        Some(j) => {
            let d = &n.children[j];
            match field_text_of(d, "name") {
                Some(nm) => {
                    let mut r: Vec<char> = Vec::new();
                    push_str(&mut r, "const ");
                    push_chars(&mut r, &nm);
                    match field_child(d, "value") {
                        Some(k) => {
                            let v = &d.children[k];
                            if node_kind_is(v, "arrow_function") {
                                push_str(&mut r, " = ");
                                let t = process_arrow_function(v);
                                push_chars(&mut r, &t);
                                push_str(&mut r, "\n");
                            } else if node_kind_is(v, "function_expression") {
                                push_str(&mut r, " = ");
                                let t = process_function(v);
                                push_chars(&mut r, &t);
                                push_str(&mut r, "\n");
                            } else {
                                push_str(&mut r, " = // ...\n");
                            }
                        },
                        None => {
                            push_str(&mut r, " = // ...\n");
                        },
                    }
                    r
                },
                None => clone_chars(&n.text),
            }
        },
        None => clone_chars(&n.text),
    }
}

pub fn process_lexical_declaration(n: &SynNode) -> (r: Vec<char>)
    ensures
        r@ == js_lexical_spec(*n),
    decreases *n, 2int,
{
    let mut r: Vec<char> = Vec::new();
    match field_text_of(n, "const") {
        Some(v) => {
            push_chars(&mut r, &v);
            push_str(&mut r, " ");
        },
        None => {},
    }
    let ghost part1 = r@;
    match field_child(n, "declarator") {
        Some(j) => {
            let d = &n.children[j];
            match field_text_of(d, "name") {
                Some(nm) => {
                    push_chars(&mut r, &nm);
                    push_str(&mut r, " = ");
                },
                None => {},
            }
            let ghost part2 = r@;
            match field_child(d, "value") {
                Some(k) => {
                    let t = process_node(&d.children[k]);
                    push_chars(&mut r, &t);
                },
                None => {},
            }
            proof {
                let dd = n.children@[idx_of_field(n.children@, "declarator"@)];
                let nm_part = match field_text(dd, "name"@) {
                    Some(nm) => nm + " = "@,
                    None => Seq::<char>::empty(),
                };
                let val_part = {
                    let k = idx_of_field(dd.children@, "value"@);
                    if 0 <= k < dd.children@.len() {
                        js_node_spec(dd.children@[k])
                    } else {
                        Seq::<char>::empty()
                    }
                };
                assert(r@ == part1 + (nm_part + val_part)) by {
                    assert(part2 == part1 + nm_part) by {
                        if field_text(dd, "name"@) is None {
                            assert(part1 + nm_part =~= part1);
                        } else {
                            assert(part1 + ((nm_part + " = "@).subrange(
                                0,
                                nm_part.len() as int,
                            )) =~= part1 + (nm_part + " = "@).subrange(0, nm_part.len() as int));
                        }
                    }
                    assert(part2 + val_part =~= part1 + (nm_part + val_part));
                }
            }
        },
        None => {
            proof {
                assert(part1 + Seq::<char>::empty() =~= part1);
            }
        },
    }
    push_str(&mut r, ";");
    proof {
        if field_text(*n, "const"@) is None {
            assert(Seq::<char>::empty() + js_lexical_spec(*n) =~= js_lexical_spec(*n));
        }
    }
    r
}

pub fn process_arrow_function(n: &SynNode) -> (r: Vec<char>)
    ensures
        r@ == js_arrow_spec(*n),
    decreases *n, 2int,
{
    let mut r: Vec<char> = Vec::new();
    match field_text_of(n, "parameters") {
        Some(v) => push_chars(&mut r, &v),
        None => {},
    }
    push_str(&mut r, " => ");
    let ghost head = r@;
    match field_child(n, "body") {
        Some(j) => {
            let t = process_node(&n.children[j]);
            push_chars(&mut r, &t);
        },
        None => {
            proof {
                assert(head + Seq::<char>::empty() =~= head);
            }
        },
    }
    proof {
        if field_text(*n, "parameters"@) is None {
            assert((Seq::<char>::empty() + " => "@) =~= " => "@);
            assert(Seq::<char>::empty() + " => "@ + (
            {
                let j = idx_of_field(n.children@, "body"@);
                if 0 <= j < n.children@.len() {
                    js_node_spec(n.children@[j])
                } else {
                    Seq::<char>::empty()
                }
            }) =~= " => "@ + (
            {
                let j = idx_of_field(n.children@, "body"@);
                if 0 <= j < n.children@.len() {
                    js_node_spec(n.children@[j])
                } else {
                    Seq::<char>::empty()
                }
            }));
        }
    }
    r
}

pub fn process_member_expression(n: &SynNode) -> (r: Vec<char>)
    ensures
        r@ == js_member_expr_spec(*n),
    decreases *n, 2int,
{
    let mut r: Vec<char> = Vec::new();
    if n.children.len() > 0 {
        let t = process_node(&n.children[0]);
        push_chars(&mut r, &t);
    }
    push_str(&mut r, ".");
    if n.children.len() > 1 {
        push_chars(&mut r, &n.children[1].text);
    } else {
        proof {
            assert(r@ + Seq::<char>::empty() =~= r@);
        }
    }
    proof {
        if n.children@.len() == 0 {
            assert(Seq::<char>::empty() + "."@ =~= "."@);
        }
    }
    r
}

pub fn process_if_statement(n: &SynNode) -> (r: Vec<char>)
    ensures
        r@ == js_if_spec(*n),
    decreases *n, 2int,
{
    let mut r: Vec<char> = Vec::new();
    push_str(&mut r, "if (");
    match field_child(n, "condition") {
        Some(j) => {
            let t = process_node(&n.children[j]);
            push_chars(&mut r, &t);
        },
        None => {
            proof {
                assert("if ("@ + Seq::<char>::empty() =~= "if ("@);
            }
        },
    }
    push_str(&mut r, ") {\n");
    let ghost head = r@;
    match field_child(n, "consequence") {
        Some(j) => {
            let t = process_node(&n.children[j]);
            push_chars(&mut r, &t);
        },
        None => {
            proof {
                assert(head + Seq::<char>::empty() =~= head);
            }
        },
    }
    push_str(&mut r, "\n}");
    let ghost head2 = r@;
    match field_child(n, "alternative") {
        Some(j) => {
            push_str(&mut r, " else {\n");
            let t = process_node(&n.children[j]);
            push_chars(&mut r, &t);
            push_str(&mut r, "\n}");
            proof {
                let alt = js_node_spec(n.children@[idx_of_field(n.children@, "alternative"@)]);
                assert(((head2 + " else {\n"@) + alt) + "\n}"@ =~= head2 + (" else {\n"@ + alt
                    + "\n}"@));
            }
        },
        None => {
            proof {
                assert(head2 + Seq::<char>::empty() =~= head2);
            }
        },
    }
    r
}

pub fn process_await_expression(n: &SynNode) -> (r: Vec<char>)
    ensures
        r@ == js_await_spec(*n),
    decreases *n, 2int,
{
    let mut r: Vec<char> = Vec::new();
    push_str(&mut r, "await ");
    if n.children.len() > 1 {
        let t = process_node(&n.children[1]);
        push_chars(&mut r, &t);
    } else {
        proof {
            assert("await "@ + Seq::<char>::empty() =~= "await "@);
        }
    }
    r
}

pub fn process_call_expression(n: &SynNode) -> (r: Vec<char>)
    ensures
        r@ == js_call_spec(*n),
    decreases *n, 2int,
{
    let mut r: Vec<char> = Vec::new();
    if n.children.len() > 0 {
        let t = process_node(&n.children[0]);
        push_chars(&mut r, &t);
    } else {
        proof {
            assert(Seq::<char>::empty() + "("@ =~= "("@);
        }
    }
    push_str(&mut r, "(");
    let ghost head = r@;
    match field_child(n, "arguments") {
        Some(j) => {
            let args = &n.children[j];
            let mut i: usize = 0;
            let mut first: bool = true;
            while i < args.children.len()
                invariant
                    i <= args.children@.len(),
                    *args == n.children@[idx_of_field(n.children@, "arguments"@)],
                    0 <= idx_of_field(n.children@, "arguments"@) < n.children@.len(),
                    head + js_args_spec(args.children@, 0, true) == r@ + js_args_spec(
                        args.children@,
                        i as int,
                        first,
                    ),
                decreases args.children@.len() - i,
            {
                let ghost r0 = r@;
                let c = &args.children[i];
                if c.named {
                    if !first {
                        push_str(&mut r, ", ");
                    }
                    let t = process_node(c);
                    push_chars(&mut r, &t);
                    proof {
                        let t_spec = js_node_spec(args.children@[i as int]);
                        let rest = js_args_spec(args.children@, i + 1, false);
                        if first {
                            assert(r0 + ((Seq::<char>::empty() + t_spec) + rest) =~= (r0 + t_spec)
                                + rest);
                        } else {
                            assert(r0 + ((", "@ + t_spec) + rest) =~= ((r0 + ", "@) + t_spec)
                                + rest);
                        }
                    }
                    first = false;
                }
                i += 1;
            }
            proof {
                assert(r@ + Seq::<char>::empty() =~= r@);
            }
        },
        None => {
            proof {
                assert(head + Seq::<char>::empty() =~= head);
            }
        },
    }
    push_str(&mut r, ")");
    r
}

/// Segmenter for JavaScript sources: holds the parsed tree of one file.
pub struct JavaScriptSegmenter {
    pub tree: SynNode,
}

impl JavaScriptSegmenter {
    /// Parses the text; `None` reports a parse failure, never a panic.
    pub fn new(code: &str) -> (r: Option<JavaScriptSegmenter>)
        ensures
            match r {
                Some(s) => js_tree_of(code@) == Some(s.tree),
                None => js_tree_of(code@) is None,
            },
    {
        match parse_javascript(code) {
            Some(t) => Some(JavaScriptSegmenter { tree: t }),
            None => None,
        }
    }

    /// The simplified text: a pure function of the parsed tree.
    pub fn simplify_code(&self) -> (r: String)
        ensures
            r@ == js_node_spec(self.tree),
    {
        let v = process_node(&self.tree);
        chars_to_string(&v)
    }
}

/// Verbatim-override preservation: a class member that is a method named
/// `constructor` keeps its whole node text, body included, re-indented
/// one level.
pub proof fn lemma_javascript_constructor_preserved(cs: Seq<SynNode>, i: int)
    requires
        0 <= i < cs.len(),
        cs[i].named,
        kind_is(cs[i], "method_definition"@),
        js_fn_name(cs[i]) == "constructor"@,
    ensures
        js_member_piece(cs, i) == indent4_spec(cs[i].text@),
{
}

/// Body elision: every function-like form is reduced to the same stub,
/// built from its name and parameter list alone.
pub proof fn lemma_javascript_body_elision(n: SynNode)
    ensures
        js_function_spec(n) == "function "@ + js_fn_name(n) + js_fn_params(n)
            + "  {\n    // implementation\n}\n"@,
{
}

} // verus!
