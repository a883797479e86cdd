//! Kotlin segmenter.
//!
//! Package and import headers and properties are kept verbatim, functions
//! are reduced to a `Type name(params);` header, and secondary constructors
//! are kept whole behind a marker comment.  The Kotlin grammar labels no
//! fields, so named sub-parts are found by their kind instead.

use vstd::prelude::*;
use crate::syntax::SynNode;
use crate::syntax::kind_is;
use crate::syntax::kind_text;
use crate::syntax::kind_text_of;
use crate::syntax::kind_child;
use crate::syntax::idx_of_kind;
use crate::syntax::node_kind_is;
use crate::text::all_ws;
use crate::text::trim_end_spec;
use crate::text::indent4_spec;
use crate::text::indent4;
use crate::text::is_blank;
use crate::text::trim_end;
use crate::text::push_chars;
use crate::text::push_str;
use crate::text::clone_chars;
use crate::text::chars_to_string;
use crate::parse::parse_kotlin;
use crate::parse::kt_tree_of;

verus! {

pub open spec fn kt_f_type(n: SynNode) -> Seq<char> {
    match kind_text(n, "user_type"@) {
        Some(t) => t,
        None => "Unit"@,
    }
}

pub open spec fn kt_f_name(n: SynNode) -> Seq<char> {
    match kind_text(n, "simple_identifier"@) {
        Some(t) => t,
        None => "unnamedFunction"@,
    }
}

pub open spec fn kt_f_params(n: SynNode) -> Seq<char> {
    match kind_text(n, "function_value_parameters"@) {
        Some(t) => t,
        None => "()"@,
    }
}

/// A function's simplified form: return type, name and parameter list,
/// closed by a semicolon; the body is discarded.
pub open spec fn kt_function_spec(n: SynNode) -> Seq<char> {
    kt_f_type(n) + " "@ + kt_f_name(n) + kt_f_params(n) + ";\n"@
}

/// A secondary constructor's simplified form: the whole node text, kept
/// verbatim behind a marker comment.
pub open spec fn kt_constructor_spec(n: SynNode) -> Seq<char> {
    "    // Constructor implementation\n "@ + n.text@ + " "@
}

pub open spec fn kt_node_spec(n: SynNode) -> Seq<char>
    decreases n, 3int,
{
    if kind_is(n, "source_file"@) {
        kt_file_spec(n)
    } else if kind_is(n, "class_declaration"@) {
        kt_class_spec(n)
    } else if kind_is(n, "function_declaration"@) {
        kt_function_spec(n)
    } else if kind_is(n, "secondary_constructor"@) {
        kt_constructor_spec(n)
    } else {
        n.text@
    }
}

pub open spec fn kt_file_items_spec(cs: Seq<SynNode>, i: int) -> Seq<char>
    decreases cs, cs.len() - i,
{
    if !(0 <= i < cs.len()) {
        Seq::empty()
    } else {
        let t = kt_node_spec(cs[i]);
        (if all_ws(t) {
            Seq::empty()
        } else {
            t + "\n"@
        }) + kt_file_items_spec(cs, i + 1)
    }
}

pub open spec fn kt_file_spec(n: SynNode) -> Seq<char>
    decreases n, 2int,
{
    trim_end_spec(kt_file_items_spec(n.children@, 0))
}

/// One class-body member's contribution: functions are stubbed and
/// re-indented, secondary constructors kept whole, properties kept
/// verbatim, any other named member kept verbatim and re-indented.
pub open spec fn kt_member_piece(cs: Seq<SynNode>, i: int) -> Seq<char> {
    if !(0 <= i < cs.len()) {
        Seq::empty()
    } else if !cs[i].named {
        Seq::empty()
    } else if kind_is(cs[i], "function_declaration"@) {
        indent4_spec(kt_function_spec(cs[i]))
    } else if kind_is(cs[i], "secondary_constructor"@) {
        kt_constructor_spec(cs[i])
    } else if kind_is(cs[i], "property_declaration"@) {
        cs[i].text@ + "\n"@
    } else {
        indent4_spec(cs[i].text@)
    }
}

pub open spec fn kt_members_spec(cs: Seq<SynNode>, i: int) -> Seq<char>
    decreases cs.len() - i,
{
    if !(0 <= i < cs.len()) {
        Seq::empty()
    } else {
        kt_member_piece(cs, i) + kt_members_spec(cs, i + 1)
    }
}

pub open spec fn kt_class_head(n: SynNode) -> Seq<char> {
    let name = match kind_text(n, "type_identifier"@) {
        Some(t) => t,
        None => "UnnamedClass"@,
    };
    "class "@ + name + " {\n"@
}

pub open spec fn kt_class_spec(n: SynNode) -> Seq<char>
    decreases n, 2int,
{
    let j = idx_of_kind(n.children@, "class_body"@);
    let mem = if 0 <= j < n.children@.len() {
        kt_members_spec(n.children@[j].children@, 0)
    } else {
        Seq::empty()
    };
    kt_class_head(n) + mem + "}\n"@
}

/// What simplification yields for a Kotlin source text.
pub open spec fn kt_simplify_spec(code: Seq<char>) -> Option<Seq<char>> {
    match kt_tree_of(code) {
        Some(t) => Some(kt_node_spec(t)),
        None => None,
    }
}

pub fn process_node(n: &SynNode) -> (r: Vec<char>)
    ensures
        r@ == kt_node_spec(*n),
    decreases *n, 3int,
{
    if node_kind_is(n, "source_file") {
        process_file(n)
    } else if node_kind_is(n, "class_declaration") {
        process_class(n)
    } else if node_kind_is(n, "function_declaration") {
        process_function(n)
    } else if node_kind_is(n, "secondary_constructor") {
        process_constructor(n)
    } else {
        clone_chars(&n.text)
    }
}

pub fn process_file(n: &SynNode) -> (r: Vec<char>)
    ensures
        r@ == kt_file_spec(*n),
    decreases *n, 2int,
{
    let mut acc: Vec<char> = Vec::new();
    let mut i: usize = 0;
    while i < n.children.len()
        invariant
            i <= n.children@.len(),
            kt_file_items_spec(n.children@, 0) == acc@ + kt_file_items_spec(
                n.children@,
                i as int,
            ),
        decreases n.children@.len() - i,
    {
        let ghost acc0 = acc@;
        let t = process_node(&n.children[i]);
        if !is_blank(&t) {
            push_chars(&mut acc, &t);
            push_str(&mut acc, "\n");
        }
        proof {
            assert(acc0 + ((t@ + "\n"@) + kt_file_items_spec(n.children@, i + 1)) =~= ((acc0 + t@)
                + "\n"@) + kt_file_items_spec(n.children@, i + 1));
            assert(acc0 + (Seq::<char>::empty() + kt_file_items_spec(n.children@, i + 1)) =~= acc0
                + kt_file_items_spec(n.children@, i + 1));
        }
        i += 1;
    }
    proof {
        assert(acc@ + Seq::<char>::empty() =~= acc@);
    }
    trim_end(&acc)
}

pub fn process_function(n: &SynNode) -> (r: Vec<char>)
    ensures
        r@ == kt_function_spec(*n),
{
    let mut r: Vec<char> = Vec::new();
    match kind_text_of(n, "user_type") {
        Some(v) => push_chars(&mut r, &v),
        None => push_str(&mut r, "Unit"),
    }
    push_str(&mut r, " ");
    match kind_text_of(n, "simple_identifier") {
        Some(v) => push_chars(&mut r, &v),
        None => push_str(&mut r, "unnamedFunction"),
    }
    match kind_text_of(n, "function_value_parameters") {
        Some(v) => push_chars(&mut r, &v),
        None => push_str(&mut r, "()"),
    }
    push_str(&mut r, ";\n");
    r
}

pub fn process_constructor(n: &SynNode) -> (r: Vec<char>)
    ensures
        r@ == kt_constructor_spec(*n),
{
    let mut r: Vec<char> = Vec::new();
    push_str(&mut r, "    // Constructor implementation\n ");
    push_chars(&mut r, &n.text);
    push_str(&mut r, " ");
    r
}

pub fn process_class(n: &SynNode) -> (r: Vec<char>)
    ensures
        r@ == kt_class_spec(*n),
    decreases *n, 2int,
{
    let mut r: Vec<char> = Vec::new();
    push_str(&mut r, "class ");
    match kind_text_of(n, "type_identifier") {
        Some(v) => push_chars(&mut r, &v),
        None => push_str(&mut r, "UnnamedClass"),
    }
    push_str(&mut r, " {\n");
    match kind_child(n, "class_body") {
        Some(j) => {
            let body = &n.children[j];
            let mut i: usize = 0;
            while i < body.children.len()
                invariant
                    i <= body.children@.len(),
                    *body == n.children@[idx_of_kind(n.children@, "class_body"@)],
                    0 <= idx_of_kind(n.children@, "class_body"@) < n.children@.len(),
                    kt_class_head(*n) + kt_members_spec(body.children@, 0) == r@
                        + kt_members_spec(body.children@, i as int),
                decreases body.children@.len() - i,
            {
                let ghost r0 = r@;
                let c = &body.children[i];
                if !c.named {
                    // anonymous punctuation: the class emits its own braces
                } else if node_kind_is(c, "function_declaration") {
                    let t = process_function(c);
                    let ind = indent4(&t);
                    push_chars(&mut r, &ind);
                } else if node_kind_is(c, "secondary_constructor") {
                    let t = process_constructor(c);
                    push_chars(&mut r, &t);
                } else if node_kind_is(c, "property_declaration") {
                    push_chars(&mut r, &c.text);
                    push_str(&mut r, "\n");
                } else {
                    let ind = indent4(&c.text);
                    push_chars(&mut r, &ind);
                }
                proof {
                    let piece = kt_member_piece(body.children@, i as int);
                    assert(r0 + (piece + kt_members_spec(body.children@, i + 1)) =~= (r0 + piece)
                        + kt_members_spec(body.children@, i + 1));
                    assert(r0 + (Seq::<char>::empty() + kt_members_spec(body.children@, i + 1))
                        =~= r0 + kt_members_spec(body.children@, i + 1));
                    assert(r0 + ((body.children@[i as int].text@ + "\n"@) + kt_members_spec(
                        body.children@,
                        i + 1,
                    )) =~= ((r0 + body.children@[i as int].text@) + "\n"@) + kt_members_spec(
                        body.children@,
                        i + 1,
                    ));
                }
                i += 1;
            }
            proof {
                assert(r@ + Seq::<char>::empty() =~= r@);
            }
        },
        None => {},
    }
    push_str(&mut r, "}\n");
    r
}

/// Segmenter for Kotlin sources: holds the parsed tree of one file.
pub struct KotlinSegmenter {
    pub tree: SynNode,
}

impl KotlinSegmenter {
    /// Parses the text; `None` reports a parse failure, never a panic.
    pub fn new(code: &str) -> (r: Option<KotlinSegmenter>)
        ensures
            match r {
                Some(s) => kt_tree_of(code@) == Some(s.tree),
                None => kt_tree_of(code@) is None,
            },
    {
        match parse_kotlin(code) {
            Some(t) => Some(KotlinSegmenter { tree: t }),
            None => None,
        }
    }

    /// The simplified text: a pure function of the parsed tree.
    pub fn simplify_code(&self) -> (r: String)
        ensures
            r@ == kt_node_spec(self.tree),
    {
        let v = process_node(&self.tree);
        chars_to_string(&v)
    }
}

/// Body elision: a function is reduced to its reconstructed header;
/// nothing of its body reaches the output.
pub proof fn lemma_kotlin_body_elision(n: SynNode)
    ensures
        kt_function_spec(n) == kt_f_type(n) + " "@ + kt_f_name(n) + kt_f_params(n) + ";\n"@,
{
}

/// Verbatim-override preservation: a secondary constructor's whole node
/// text stands unmodified in its simplified form.
pub proof fn lemma_kotlin_constructor_preserved(n: SynNode)
    ensures
        kt_constructor_spec(n).subrange(
            "    // Constructor implementation\n "@.len() as int,
            kt_constructor_spec(n).len() - 1,
        ) == n.text@,
{
    reveal_strlit("    // Constructor implementation\n ");
    reveal_strlit(" ");
    assert(kt_constructor_spec(n).subrange(
        "    // Constructor implementation\n "@.len() as int,
        kt_constructor_spec(n).len() - 1,
    ) =~= n.text@);
}

} // verus!
