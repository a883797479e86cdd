//! Python segmenter.
//!
//! Classes keep their header and member outlines, functions are reduced to
//! a `def` header with a `pass` body, and `__init__` keeps its whole body,
//! re-indented one level.  Unrecognized named nodes are kept verbatim, never
//! dropped.

use vstd::prelude::*;
use crate::syntax::SynNode;
use crate::syntax::kind_is;
use crate::syntax::field_text;
use crate::syntax::field_text_of;
use crate::syntax::field_child;
use crate::syntax::kind_child;
use crate::syntax::idx_of_field;
use crate::syntax::idx_of_kind;
use crate::syntax::node_kind_is;
use crate::text::all_ws;
use crate::text::trim_end_spec;
use crate::text::indent4_spec;
use crate::text::indent4;
use crate::text::split_lines_spec;
use crate::text::indent_offset;
use crate::text::lemma_indent4_line;
use crate::text::is_blank;
use crate::text::trim_end;
use crate::text::push_chars;
use crate::text::push_str;
use crate::text::clone_chars;
use crate::text::chars_eq_str;
use crate::text::chars_to_string;
use crate::parse::parse_python;
use crate::parse::py_tree_of;

verus! {

/// The function's name as the segmenter reads it: the `name` field's text,
/// or empty when the field is missing.
pub open spec fn py_fn_name(n: SynNode) -> Seq<char> {
    match field_text(n, "name"@) {
        Some(t) => t,
        None => Seq::empty(),
    }
}

/// The parameter list's text, or `()` when the field is missing.
pub open spec fn py_fn_params(n: SynNode) -> Seq<char> {
    match field_text(n, "parameters"@) {
        Some(t) => t,
        None => "()"@,
    }
}

/// Whether the definition carries an `async` keyword child.
pub open spec fn py_is_async(n: SynNode) -> bool {
    idx_of_kind(n.children@, "async"@) >= 0
}

/// A function definition's simplified form: the reconstructed `def` header,
/// then either the re-indented verbatim body (for `__init__`) or `pass`.
pub open spec fn py_function_spec(n: SynNode) -> Seq<char> {
    let head = (if py_is_async(n) {
        "async def "@
    } else {
        "def "@
    }) + py_fn_name(n) + py_fn_params(n) + ":\n"@;
    if py_fn_name(n) == "__init__"@ {
        match field_text(n, "body"@) {
            Some(b) => head + indent4_spec(b),
            None => head,
        }
    } else {
        head + "    pass\n"@
    }
}

/// The decorator lines of a decorated definition, re-emitted verbatim.
pub open spec fn py_decorators_spec(cs: Seq<SynNode>, i: int) -> Seq<char>
    decreases cs.len() - i,
{
    if !(0 <= i < cs.len()) {
        Seq::empty()
    } else {
        (if kind_is(cs[i], "decorator"@) {
            cs[i].text@ + "\n"@
        } else {
            Seq::empty()
        }) + py_decorators_spec(cs, i + 1)
    }
}

pub open spec fn py_node_spec(n: SynNode) -> Seq<char>
    decreases n, 3int,
{
    if kind_is(n, "module"@) {
        py_module_spec(n)
    } else if kind_is(n, "class_definition"@) {
        py_class_spec(n)
    } else if kind_is(n, "function_definition"@) || kind_is(n, "async_function_definition"@) {
        py_function_spec(n)
    } else if kind_is(n, "decorated_definition"@) {
        py_decorated_spec(n)
    } else {
        n.text@
    }
}

/// Module children, each non-blank simplified child followed by a newline.
pub open spec fn py_module_items_spec(cs: Seq<SynNode>, i: int) -> Seq<char>
    decreases cs, cs.len() - i,
{
    if !(0 <= i < cs.len()) {
        Seq::empty()
    } else {
        let t = py_node_spec(cs[i]);
        (if all_ws(t) {
            Seq::empty()
        } else {
            t + "\n"@
        }) + py_module_items_spec(cs, i + 1)
    }
}

/// A module's simplified form: its items, trailing whitespace trimmed,
/// and one final line feed when anything is left.
pub open spec fn py_module_spec(n: SynNode) -> Seq<char>
    decreases n, 2int,
{
    let t = trim_end_spec(py_module_items_spec(n.children@, 0));
    if t.len() == 0 {
        t
    } else {
        t + "\n"@
    }
}

/// Class-body members: methods are simplified and re-indented, decorated
/// definitions likewise, any other named member is kept verbatim and
/// re-indented; anonymous punctuation is the container's own and is skipped.
pub open spec fn py_members_spec(cs: Seq<SynNode>, i: int) -> Seq<char>
    decreases cs, cs.len() - i,
{
    if !(0 <= i < cs.len()) {
        Seq::empty()
    } else {
        (if kind_is(cs[i], "function_definition"@) || kind_is(
            cs[i],
            "async_function_definition"@,
        ) {
            indent4_spec(py_function_spec(cs[i]))
        } else if kind_is(cs[i], "decorated_definition"@) {
            indent4_spec(py_decorated_spec(cs[i]))
        } else if cs[i].named {
            indent4_spec(cs[i].text@)
        } else {
            Seq::empty()
        }) + py_members_spec(cs, i + 1)
    }
}

pub open spec fn py_class_spec(n: SynNode) -> Seq<char>
    decreases n, 2int,
{
    let name = match field_text(n, "name"@) {
        Some(t) => t,
        None => "UnnamedClass"@,
    };
    let head = "class "@ + name + ":\n"@;
    let j = idx_of_field(n.children@, "body"@);
    let r = if 0 <= j < n.children@.len() {
        head + py_members_spec(n.children@[j].children@, 0)
    } else {
        head
    };
    if r.len() > 0 && r.last() == '\n' {
        r
    } else {
        r + "\n"@
    }
}

pub open spec fn py_decorated_spec(n: SynNode) -> Seq<char>
    decreases n, 1int,
{
    let deco = py_decorators_spec(n.children@, 0);
    if n.children@.len() > 0 {
        deco + py_node_spec(n.children@[n.children@.len() - 1])
    } else {
        deco
    }
}

/// What simplification yields for a Python source text: the simplified
/// root when the text parses, nothing when it does not.
pub open spec fn py_simplify_spec(code: Seq<char>) -> Option<Seq<char>> {
    match py_tree_of(code) {
        Some(t) => Some(py_node_spec(t)),
        None => None,
    }
}

pub fn process_node(n: &SynNode) -> (r: Vec<char>)
    ensures
        r@ == py_node_spec(*n),
    decreases *n, 3int,
{
    if node_kind_is(n, "module") {
        process_module(n)
    } else if node_kind_is(n, "class_definition") {
        process_class(n)
    } else if node_kind_is(n, "function_definition") || node_kind_is(
        n,
        "async_function_definition",
    ) {
        process_function(n)
    } else if node_kind_is(n, "decorated_definition") {
        process_decorated_definition(n)
    } else {
        clone_chars(&n.text)
    }
}

pub fn process_module(n: &SynNode) -> (r: Vec<char>)
    ensures
        r@ == py_module_spec(*n),
    decreases *n, 2int,
{
    let mut acc: Vec<char> = Vec::new();
    let mut i: usize = 0;
    while i < n.children.len()
        invariant
            i <= n.children@.len(),
            py_module_items_spec(n.children@, 0) == acc@ + py_module_items_spec(
                n.children@,
                i as int,
            ),
        decreases n.children@.len() - i,
    {
        let ghost acc0 = acc@;
        let t = process_node(&n.children[i]);
        if !is_blank(&t) {
            push_chars(&mut acc, &t);
            push_str(&mut acc, "\n");
        }
        proof {
            assert(acc0 + ((t@ + "\n"@) + py_module_items_spec(n.children@, i + 1)) =~= ((acc0
                + t@) + "\n"@) + py_module_items_spec(n.children@, i + 1));
            assert(acc0 + (Seq::<char>::empty() + py_module_items_spec(n.children@, i + 1)) =~=
                acc0 + py_module_items_spec(n.children@, i + 1));
        }
        i += 1;
    }
    proof {
        assert(acc@ + Seq::<char>::empty() =~= acc@);
    }
    let mut r = trim_end(&acc);
    if r.len() > 0 {
        push_str(&mut r, "\n");
    }
    r
}

pub fn process_function(n: &SynNode) -> (r: Vec<char>)
    ensures
        r@ == py_function_spec(*n),
{
    let is_async = kind_child(n, "async").is_some();
    let name = match field_text_of(n, "name") {
        Some(v) => v,
        None => Vec::new(),
    };
    let params = match field_text_of(n, "parameters") {
        Some(v) => v,
        None => crate::text::str_chars("()"),
    };
    let mut r: Vec<char> = Vec::new();
    if is_async {
        push_str(&mut r, "async def ");
    } else {
        push_str(&mut r, "def ");
    }
    push_chars(&mut r, &name);
    push_chars(&mut r, &params);
    push_str(&mut r, ":\n");
    if chars_eq_str(&name, "__init__") {
        match field_text_of(n, "body") {
            Some(b) => {
                let ind = indent4(&b);
                push_chars(&mut r, &ind);
            },
            None => {},
        }
    } else {
        push_str(&mut r, "    pass\n");
    }
    r
}

pub fn process_class(n: &SynNode) -> (r: Vec<char>)
    ensures
        r@ == py_class_spec(*n),
    decreases *n, 2int,
{
    let mut r: Vec<char> = Vec::new();
    push_str(&mut r, "class ");
    match field_text_of(n, "name") {
        Some(v) => push_chars(&mut r, &v),
        None => push_str(&mut r, "UnnamedClass"),
    }
    push_str(&mut r, ":\n");
    match field_child(n, "body") {
        Some(j) => {
            let body = &n.children[j];
            let mut i: usize = 0;
            while i < body.children.len()
                invariant
                    i <= body.children@.len(),
                    *body == n.children@[idx_of_field(n.children@, "body"@)],
                    0 <= idx_of_field(n.children@, "body"@) < n.children@.len(),
                    py_class_head(*n) + py_members_spec(body.children@, 0) == r@
                        + py_members_spec(body.children@, i as int),
                decreases body.children@.len() - i,
            {
                let ghost r0 = r@;
                let c = &body.children[i];
                if node_kind_is(c, "function_definition") || node_kind_is(
                    c,
                    "async_function_definition",
                ) {
                    let t = process_function(c);
                    let ind = indent4(&t);
                    push_chars(&mut r, &ind);
                } else if node_kind_is(c, "decorated_definition") {
                    let t = process_decorated_definition(c);
                    let ind = indent4(&t);
                    push_chars(&mut r, &ind);
                } else if c.named {
                    let ind = indent4(&c.text);
                    push_chars(&mut r, &ind);
                }
                proof {
                    let piece = py_member_piece(body.children@, i as int);
                    assert(r0 + (piece + py_members_spec(body.children@, i + 1)) =~= (r0 + piece)
                        + py_members_spec(body.children@, i + 1));
                    assert(r0 + (Seq::<char>::empty() + py_members_spec(body.children@, i + 1))
                        =~= r0 + py_members_spec(body.children@, i + 1));
                }
                i += 1;
            }
            proof {
                assert(r@ + Seq::<char>::empty() =~= r@);
            }
        },
        None => {},
    }
    if r.len() > 0 && r[r.len() - 1] == '\n' {
        r
    } else {
        push_str(&mut r, "\n");
        r
    }
}

/// The class header line, as `py_class_spec` builds it.
pub open spec fn py_class_head(n: SynNode) -> Seq<char> {
    let name = match field_text(n, "name"@) {
        Some(t) => t,
        None => "UnnamedClass"@,
    };
    "class "@ + name + ":\n"@
}

/// One member's contribution, as `py_members_spec` builds it.
pub open spec fn py_member_piece(cs: Seq<SynNode>, i: int) -> Seq<char>
    decreases cs[i], 4int,
{
    if !(0 <= i < cs.len()) {
        Seq::empty()
    } else if kind_is(cs[i], "function_definition"@) || kind_is(
        cs[i],
        "async_function_definition"@,
    ) {
        indent4_spec(py_function_spec(cs[i]))
    } else if kind_is(cs[i], "decorated_definition"@) {
        indent4_spec(py_decorated_spec(cs[i]))
    } else if cs[i].named {
        indent4_spec(cs[i].text@)
    } else {
        Seq::empty()
    }
}

pub fn process_decorated_definition(n: &SynNode) -> (r: Vec<char>)
    ensures
        r@ == py_decorated_spec(*n),
    decreases *n, 1int,
{
    let mut r: Vec<char> = Vec::new();
    let mut i: usize = 0;
    while i < n.children.len()
        invariant
            i <= n.children@.len(),
            py_decorators_spec(n.children@, 0) == r@ + py_decorators_spec(n.children@, i as int),
        decreases n.children@.len() - i,
    {
        let ghost r0 = r@;
        if node_kind_is(&n.children[i], "decorator") {
            push_chars(&mut r, &n.children[i].text);
            push_str(&mut r, "\n");
        }
        proof {
            assert(r0 + ((n.children@[i as int].text@ + "\n"@) + py_decorators_spec(
                n.children@,
                i + 1,
            )) =~= ((r0 + n.children@[i as int].text@) + "\n"@) + py_decorators_spec(
                n.children@,
                i + 1,
            ));
            assert(r0 + (Seq::<char>::empty() + py_decorators_spec(n.children@, i + 1)) =~= r0
                + py_decorators_spec(n.children@, i + 1));
        }
        i += 1;
    }
    proof {
        assert(r@ + Seq::<char>::empty() =~= r@);
    }
    if n.children.len() > 0 {
        let t = process_node(&n.children[n.children.len() - 1]);
        push_chars(&mut r, &t);
    }
    r
}

/// Segmenter for Python sources: holds the parsed tree of one file.
pub struct PythonSegmenter {
    pub tree: SynNode,
}

impl PythonSegmenter {
    /// Parses the text; `None` reports a parse failure, never a panic.
    pub fn new(code: &str) -> (r: Option<PythonSegmenter>)
        ensures
            match r {
                Some(s) => py_tree_of(code@) == Some(s.tree),
                None => py_tree_of(code@) is None,
            },
    {
        match parse_python(code) {
            Some(t) => Some(PythonSegmenter { tree: t }),
            None => None,
        }
    }

    /// The simplified text: a pure function of the parsed tree, hence of
    /// the source text the tree came from.
    pub fn simplify_code(&self) -> (r: String)
        ensures
            r@ == py_node_spec(self.tree),
    {
        let v = process_node(&self.tree);
        chars_to_string(&v)
    }
}

/// Body elision: a recognized function or method that is not `__init__`
/// is reduced to its reconstructed header plus `pass`; nothing of its body
/// reaches the output.
pub proof fn lemma_python_body_elision(n: SynNode)
    requires
        py_fn_name(n) != "__init__"@,
    ensures
        py_function_spec(n) == (if py_is_async(n) {
            "async def "@
        } else {
            "def "@
        }) + py_fn_name(n) + py_fn_params(n) + ":\n"@ + "    pass\n"@,
{
}

/// Verbatim-override preservation, line by line: every line of an
/// `__init__` body's text appears unmodified in the simplified form, in
/// order, after the reconstructed header, prefixed by exactly one
/// four-space indentation unit and closed by a line feed.
pub proof fn lemma_python_init_line_preserved(n: SynNode, b: Seq<char>, k: int)
    requires
        py_fn_name(n) == "__init__"@,
        field_text(n, "body"@) == Some(b),
        0 <= k < split_lines_spec(b).len(),
    ensures
        ({
            let head = (if py_is_async(n) {
                "async def "@
            } else {
                "def "@
            }) + py_fn_name(n) + py_fn_params(n) + ":\n"@;
            let ls = split_lines_spec(b);
            let out = py_function_spec(n);
            let off = head.len() + indent_offset(ls, k);
            &&& out.subrange(off, off + 4) == "    "@
            &&& out.subrange(off + 4, off + 4 + ls[k].len() as int) == ls[k]
            &&& out[off + 4 + ls[k].len()] == '\n'
        }),
{
    lemma_indent4_line(b, k);
    let head = (if py_is_async(n) {
        "async def "@
    } else {
        "def "@
    }) + py_fn_name(n) + py_fn_params(n) + ":\n"@;
    let ls = split_lines_spec(b);
    let ind = indent4_spec(b);
    let off0 = indent_offset(ls, k);
    assert((head + ind).subrange(head.len() + off0, head.len() + off0 + 4) =~= ind.subrange(
        off0,
        off0 + 4,
    ));
    assert((head + ind).subrange(
        head.len() + off0 + 4,
        head.len() + off0 + 4 + ls[k].len() as int,
    ) =~= ind.subrange(off0 + 4, off0 + 4 + ls[k].len() as int));
}

/// Verbatim-override preservation: an `__init__` with a body keeps the
/// whole body text, re-indented one level, after its reconstructed header.
pub proof fn lemma_python_init_preserved(n: SynNode, b: Seq<char>)
    requires
        py_fn_name(n) == "__init__"@,
        field_text(n, "body"@) == Some(b),
    ensures
        py_function_spec(n) == (if py_is_async(n) {
            "async def "@
        } else {
            "def "@
        }) + py_fn_name(n) + py_fn_params(n) + ":\n"@ + indent4_spec(b),
{
}

} // verus!
